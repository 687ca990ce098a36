//! Blocks of decoded instructions: how one is found in memory, and what
//! running one does.

use vstd::prelude::*;
use crate::instruction::{
    decode_spec, ends_block, execute_at_spec, fetch_spec, lemma_warning_ends_block, step_result,
    Fault, Handler, StackWarning, StepView,
};
use crate::interpreter::{decode, is_block_end};
use crate::opcode::Opcode;
use crate::state::{State, StateView};

verus! {

/// An instruction word together with its handler.
#[derive(Clone, Copy, Debug, PartialEq, Eq, Structural)]
pub struct CachedInstruction {
    pub opcode: Opcode,
    pub execute: Handler,
}

/// A block of decoded instructions, read from guest memory at `pc..end_pc`.
#[derive(Clone, Debug)]
pub struct InstructionCache {
    /// Address of the first instruction.
    pub pc: u16,
    /// Address after the last word read while decoding.
    pub end_pc: u16,
    /// The decoded instructions, in address order.
    pub instructions: Vec<CachedInstruction>,
}

/// Mathematical model of an [`InstructionCache`].
pub struct BlockView {
    pub pc: u16,
    pub end_pc: u16,
    pub instructions: Seq<CachedInstruction>,
}

impl View for InstructionCache {
    type V = BlockView;

    open spec fn view(&self) -> BlockView {
        BlockView { pc: self.pc, end_pc: self.end_pc, instructions: self.instructions@ }
    }
}

impl InstructionCache {
    /// Appends an instruction to the block.
    pub fn push(&mut self, inst: CachedInstruction)
        ensures
            final(self)@ == (BlockView {
                instructions: old(self)@.instructions.push(inst),
                ..old(self)@
            }),
    {
        self.instructions.push(inst);
    }
}

/// What decoding forward from an address finds.
pub struct Scan {
    /// The instructions of the block.
    pub instructions: Seq<CachedInstruction>,
    /// The address after the last word read, or the address whose word
    /// does not fit in memory.
    pub end_pc: int,
    /// Whether decoding ran off the end of memory before the block ended.
    pub overrun: bool,
}

/// `rest` with the instructions `prefix` in front.
pub open spec fn scan_after(prefix: Seq<CachedInstruction>, rest: Scan) -> Scan {
    Scan { instructions: prefix + rest.instructions, ..rest }
}

/// Whether the instruction at `pc` is the last that starts in its 16-byte
/// pool: the one after it, at `pc + 2`, starts in the next pool.
pub open spec fn last_of_pool(pc: int) -> bool {
    pc >= 0x200 && (pc - 0x200) % 16 >= 14
}

/// The block that starts at `pc`: successive words are decoded up to and
/// including the first one that ends a block. A word that is no
/// instruction ends the block too, and is left out of it. A conditional
/// skip does not end the block. With `pooled`, the block also ends with
/// the last instruction that starts in its pool.
pub open spec fn scan(memory: Seq<u8>, pc: int, pooled: bool) -> Scan
    decreases 4096 - pc,
{
    if pc < 0 || pc + 1 >= 4096 {
        Scan { instructions: Seq::empty(), end_pc: pc, overrun: true }
    } else {
        let opcode = fetch_spec(memory, pc);
        let execute = decode_spec(opcode);
        if execute == Handler::Invalid {
            Scan { instructions: Seq::empty(), end_pc: pc + 2, overrun: false }
        } else if ends_block(execute) || (pooled && last_of_pool(pc)) {
            Scan {
                instructions: seq![CachedInstruction { opcode, execute }],
                end_pc: pc + 2,
                overrun: false,
            }
        } else {
            scan_after(seq![CachedInstruction { opcode, execute }], scan(memory, pc + 2, pooled))
        }
    }
}

/// The block that building at `pc` gives, or the fault that prevents it:
/// decoding ran off the end of memory, or the first word is no instruction.
pub open spec fn build_spec(memory: Seq<u8>, pc: u16, pooled: bool) -> Result<BlockView, Fault> {
    let found = scan(memory, pc as int, pooled);
    if found.overrun {
        Err(Fault::OutOfRange { pc: found.end_pc as u16 })
    } else if found.instructions.len() == 0 {
        Err(Fault::InvalidOpcode { opcode: fetch_spec(memory, pc as int).0, pc })
    } else {
        Ok(BlockView { pc, end_pc: found.end_pc as u16, instructions: found.instructions })
    }
}

/// Running the first `k` instructions of a block from state `s0`: each is
/// executed in turn until one returns a nonzero code or cannot be
/// executed. `randoms[j]` is the random byte for instruction `j`.
pub open spec fn run_spec(
    s0: StateView,
    instructions: Seq<CachedInstruction>,
    randoms: Seq<u8>,
    k: int,
) -> StepView
    decreases k,
{
    if k <= 0 {
        StepView { state: s0, code: 0, fault: None, warning: None }
    } else {
        let before = run_spec(s0, instructions, randoms, k - 1);
        if before.fault is Some || before.code != 0 {
            before
        } else {
            execute_at_spec(
                before.state,
                instructions[k - 1].execute,
                instructions[k - 1].opcode,
                randoms[k - 1],
            )
        }
    }
}

/// A run depends on the random bytes of the instructions it covers only.
pub proof fn lemma_run_randoms(
    s0: StateView,
    instructions: Seq<CachedInstruction>,
    r1: Seq<u8>,
    r2: Seq<u8>,
    k: int,
)
    requires
        forall|j: int| 0 <= j < k ==> r1[j] == r2[j],
    ensures
        run_spec(s0, instructions, r1, k) == run_spec(s0, instructions, r2, k),
    decreases k,
{
    if k > 0 {
        lemma_run_randoms(s0, instructions, r1, r2, k - 1);
    }
}

/// Once a run has stopped, on a nonzero code or on a fault, running
/// further changes nothing.
pub proof fn lemma_run_stops(
    s0: StateView,
    instructions: Seq<CachedInstruction>,
    randoms: Seq<u8>,
    k: int,
    n: int,
)
    requires
        0 <= k <= n,
        run_spec(s0, instructions, randoms, k).fault is Some || run_spec(
            s0,
            instructions,
            randoms,
            k,
        ).code != 0,
    ensures
        run_spec(s0, instructions, randoms, n) == run_spec(s0, instructions, randoms, k),
    decreases n - k,
{
    if k < n {
        lemma_run_stops(s0, instructions, randoms, k, n - 1);
    }
}

/// Running one instruction more, after a run that has not stopped.
pub proof fn lemma_run_next(
    s0: StateView,
    instructions: Seq<CachedInstruction>,
    randoms: Seq<u8>,
    k: int,
    random: u8,
)
    requires
        0 <= k == randoms.len(),
        run_spec(s0, instructions, randoms, k).fault is None,
        run_spec(s0, instructions, randoms, k).code == 0,
    ensures
        run_spec(s0, instructions, randoms.push(random), k + 1) == execute_at_spec(
            run_spec(s0, instructions, randoms, k).state,
            instructions[k].execute,
            instructions[k].opcode,
            random,
        ),
{
    lemma_run_randoms(s0, instructions, randoms, randoms.push(random), k);
}

/// Reads the instruction word at `pc`, high byte first.
pub fn fetch(memory: &[u8; 4096], pc: u16) -> (opcode: Opcode)
    requires
        pc + 1 < 4096,
    ensures
        opcode == fetch_spec(memory@, pc as int),
{
    Opcode(((memory[pc as usize] as u16) << 8) | (memory[pc as usize + 1] as u16))
}

/// Decodes the block that starts at `block_pc`.
pub fn build_block(memory: &[u8; 4096], block_pc: u16, pooled: bool) -> (r: Result<
    InstructionCache,
    Fault,
>)
    ensures
        match r {
            Ok(block) => build_spec(memory@, block_pc, pooled) == Ok::<BlockView, Fault>(block@),
            Err(fault) => build_spec(memory@, block_pc, pooled) == Err::<BlockView, Fault>(fault),
        },
{
    let mut pc: u16 = block_pc;
    let mut instructions: Vec<CachedInstruction> = Vec::new();
    let mut done = false;
    let ghost whole = scan(memory@, block_pc as int, pooled);
    while !done && pc < 0xFFF
        invariant
            block_pc <= pc,
            done ==> pc <= 0x1000,
            whole == scan(memory@, block_pc as int, pooled),
            !done ==> whole == scan_after(instructions@, scan(memory@, pc as int, pooled)),
            done ==> whole == (Scan {
                instructions: instructions@,
                end_pc: pc as int,
                overrun: false,
            }),
        decreases 0x10000 - pc + (if done { 0int } else { 1int }),
    {
        let opcode = fetch(memory, pc);
        let execute = decode(opcode);
        let ghost here = scan(memory@, pc as int, pooled);
        let ghost before = instructions@;
        let last_of_pool = pc >= 0x200 && (pc - 0x200) % 16 >= 14;
        pc = pc + 2;
        if execute == Handler::Invalid {
            done = true;
            assert(before + here.instructions =~= before);
        } else {
            instructions.push(CachedInstruction { opcode, execute });
            let ghost one = seq![CachedInstruction { opcode, execute }];
            assert(before + one =~= instructions@);
            if is_block_end(execute) || (pooled && last_of_pool) {
                done = true;
            } else {
                assert(before + (one + scan(memory@, pc as int, pooled).instructions) =~= (before
                    + one) + scan(memory@, pc as int, pooled).instructions);
            }
        }
    }
    if !done {
        assert(scan(memory@, pc as int, pooled).instructions =~= Seq::empty());
        assert(instructions@ + Seq::<CachedInstruction>::empty() =~= instructions@);
        Err(Fault::OutOfRange { pc })
    } else if instructions.len() == 0 {
        assert(block_pc + 1 < 4096);
        Err(Fault::InvalidOpcode { opcode: fetch(memory, block_pc).0, pc: block_pc })
    } else {
        Ok(InstructionCache { pc: block_pc, end_pc: pc, instructions })
    }
}

/// Whether machine `after`, result `r` and warning `warning` are what a
/// run that came to `out` leaves behind.
pub open spec fn run_result(
    out: StepView,
    after: StateView,
    r: Result<u32, Fault>,
    warning: Option<StackWarning>,
) -> bool {
    step_result(out, after, r) && warning == out.warning
}

/// Runs a block of decoded instructions: executes them in turn until one
/// returns a nonzero code, which is then returned, or cannot be executed,
/// which gives its fault. Returns 0 if every instruction returned 0. With
/// the result comes the stack warning of the last instruction, if it
/// gave one.
pub fn run_block(state: &mut State, instructions: &Vec<CachedInstruction>) -> (r: (
    Result<u32, Fault>,
    Option<StackWarning>,
))
    ensures
        exists|randoms: Seq<u8>|
            run_result(
                #[trigger] run_spec(
                    old(state)@,
                    instructions@,
                    randoms,
                    instructions@.len() as int,
                ),
                final(state)@,
                r.0,
                r.1,
            ),
{
    let ghost s0 = state@;
    let ghost mut randoms = Seq::<u8>::empty();
    let n = instructions.len();
    let mut k: usize = 0;
    while k < n
        invariant
            k <= n,
            n == instructions@.len(),
            s0 == old(state)@,
            randoms.len() == k,
            run_spec(s0, instructions@, randoms, k as int) == (StepView {
                state: state@,
                code: 0,
                fault: None,
                warning: None,
            }),
        decreases n - k,
    {
        let inst = instructions[k];
        let ghost before = state@;
        let warned = state.stack_warning(inst.execute);
        let r = state.execute_at(inst.execute, inst.opcode);
        proof {
            let random = choose|random: u8|
                step_result(
                    #[trigger] execute_at_spec(before, inst.execute, inst.opcode, random),
                    state@,
                    r,
                );
            lemma_run_next(s0, instructions@, randoms, k as int, random);
            lemma_warning_ends_block(before, inst.execute, inst.opcode, random);
            randoms = randoms.push(random);
        }
        match r {
            Err(fault) => {
                proof {
                    lemma_run_stops(s0, instructions@, randoms, k + 1, n as int);
                    assert(run_result(
                        run_spec(s0, instructions@, randoms, n as int),
                        state@,
                        Err::<u32, Fault>(fault),
                        None,
                    ));
                }
                return (Err(fault), None);
            },
            Ok(code) => {
                if code != 0 {
                    proof {
                        lemma_run_stops(s0, instructions@, randoms, k + 1, n as int);
                        assert(run_result(
                            run_spec(s0, instructions@, randoms, n as int),
                            state@,
                            Ok::<u32, Fault>(code),
                            warned,
                        ));
                    }
                    return (Ok(code), warned);
                }
            },
        }
        k += 1;
    }
    (Ok(0), None)
}

} // verus!
