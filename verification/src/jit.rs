//! The just-in-time compiler, native code aside: which instructions a
//! native block covers, how a block says where to go on, and what the
//! core does with that.

use vstd::prelude::*;
use crate::block::{fetch, BlockView, CachedInstruction, InstructionCache};
use crate::cache::{in_range, Cache};
use crate::chip8::{Chip8, Risp8Answer};
use crate::instruction::{
    code_spec, decode_spec, executable, fetch_spec, skip_next, step_spec, Fault, Handler,
};
use crate::opcode::Opcode;
use crate::interpreter::{decode, interpreter_post};
use crate::state::{State, StateView};

verus! {

/// The reasons for a native block to return to the core.
#[derive(Clone, Copy, Debug, PartialEq, Eq, Structural)]
pub enum Interrupts {
    /// The instruction at the address returned is left to the interpreter.
    UseInterpreter,
    /// Execution goes on at the address returned.
    Jump,
    /// Guest memory was written: native blocks there are to be dropped.
    InvalidateCache,
}

/// What a native block returned, decoded.
#[derive(Clone, Copy, Debug, PartialEq, Eq, Structural)]
pub enum JitExit {
    /// Run one interpreter step at `pc`.
    UseInterpreter { pc: u16 },
    /// Go on at `pc`.
    Jump { pc: u16 },
    /// Drop the native blocks that hold an address of `beg..=end`, then go
    /// on at `pc`.
    InvalidateCache { pc: u16, beg: u16, end: u16 },
}

/// The bits of the value a native block returns for `exit`: the reason in
/// bits 16 to 31, the next address in bits 0 to 15 and, for an
/// invalidation, the first address of the range in bits 48 to 63 and the
/// last in bits 32 to 47.
pub open spec fn return_bits(exit: JitExit) -> u64 {
    match exit {
        JitExit::UseInterpreter { pc } => (0x1_0000 + pc) as u64,
        JitExit::Jump { pc } => (0x2_0000 + pc) as u64,
        JitExit::InvalidateCache { pc, beg, end } => (beg * 0x1_0000_0000_0000 + end
            * 0x1_0000_0000 + 0x3_0000 + pc) as u64,
    }
}

/// The signed number that 64 bits stand for in two's complement.
pub open spec fn signed(bits: u64) -> int {
    if bits >= 0x8000_0000_0000_0000 {
        bits - 0x1_0000_0000_0000_0000int
    } else {
        bits as int
    }
}

/// The bits that stand for a signed number in two's complement.
pub open spec fn bits_of(value: i64) -> u64 {
    if value < 0 {
        (value + 0x1_0000_0000_0000_0000int) as u64
    } else {
        value as u64
    }
}

/// The value a native block returns for `exit`, as a signed number: it is
/// negative where the first address of an invalidation is `0x8000` or more.
pub open spec fn return_value(exit: JitExit) -> int {
    signed(return_bits(exit))
}

/// The one decoding of the value a native block returns.
pub open spec fn exit_spec(ret: u64) -> Option<JitExit> {
    let reason = (ret >> 16) & 0xFFFF;
    let pc = (ret & 0xFFFF) as u16;
    if reason == 1 {
        Some(JitExit::UseInterpreter { pc })
    } else if reason == 2 {
        Some(JitExit::Jump { pc })
    } else if reason == 3 {
        Some(
            JitExit::InvalidateCache {
                pc,
                beg: (ret >> 48) as u16,
                end: ((ret >> 32) & 0xFFFF) as u16,
            },
        )
    } else {
        None
    }
}

impl Interrupts {
    /// The number that stands for the reason in a return value.
    pub open spec fn number_spec(self) -> u64 {
        match self {
            Interrupts::UseInterpreter => 1,
            Interrupts::Jump => 2,
            Interrupts::InvalidateCache => 3,
        }
    }

    /// The reason that `i` stands for, if it stands for one.
    pub fn from_number(i: u64) -> (r: Option<Interrupts>)
        ensures
            r matches Some(reason) ==> reason.number_spec() == i,
            r is None <==> !(1 <= i <= 3),
    {
        if i == 1 {
            Some(Interrupts::UseInterpreter)
        } else if i == 2 {
            Some(Interrupts::Jump)
        } else if i == 3 {
            Some(Interrupts::InvalidateCache)
        } else {
            None
        }
    }

    /// The return value that leaves the instruction at `addr` to the interpreter.
    pub fn use_interpreter(addr: u16) -> (r: i64)
        ensures
            r == return_value(JitExit::UseInterpreter { pc: addr }),
    {
        0x1_0000 + addr as i64
    }

    /// The return value that jumps to `addr`.
    pub fn jump(addr: u16) -> (r: i64)
        ensures
            r == return_value(JitExit::Jump { pc: addr }),
    {
        0x2_0000 + addr as i64
    }

    /// The return value that drops the native blocks in
    /// `range_beg..=range_end` and goes on at `next_pc`.
    pub fn invalidate(next_pc: u16, range_beg: u16, range_end: u16) -> (r: i64)
        ensures
            r == return_value(
                JitExit::InvalidateCache { pc: next_pc, beg: range_beg, end: range_end },
            ),
    {
        // The highest bit of the range's first address is the sign of the value.
        let high: i64 = if range_beg < 0x8000 {
            range_beg as i64
        } else {
            range_beg as i64 - 0x1_0000
        };
        high * 0x1_0000_0000_0000 + range_end as i64 * 0x1_0000_0000 + 0x3_0000 + next_pc as i64
    }
}

/// Decodes the value a native block returned. `None` if it carries no
/// known reason.
pub fn decode_return(ret: u64) -> (exit: Option<JitExit>)
    ensures
        exit == exit_spec(ret),
{
    let reason = (ret >> 16) & 0xFFFF;
    assert(ret & 0xFFFF <= 0xFFFF && (ret >> 48) <= 0xFFFF && (ret >> 32) & 0xFFFF <= 0xFFFF)
        by (bit_vector);
    let pc = (ret & 0xFFFF) as u16;
    match Interrupts::from_number(reason) {
        Some(Interrupts::UseInterpreter) => Some(JitExit::UseInterpreter { pc }),
        Some(Interrupts::Jump) => Some(JitExit::Jump { pc }),
        Some(Interrupts::InvalidateCache) => Some(
            JitExit::InvalidateCache {
                pc,
                beg: (ret >> 48) as u16,
                end: ((ret >> 32) & 0xFFFF) as u16,
            },
        ),
        None => None,
    }
}

/// A return value decodes to the exit it was made for, whatever the
/// addresses in it.
pub proof fn lemma_return_value_decodes(exit: JitExit, value: i64)
    requires
        value == return_value(exit),
    ensures
        bits_of(value) == return_bits(exit),
        exit_spec(bits_of(value)) == Some(exit),
{
    match exit {
        JitExit::UseInterpreter { pc } => {
            let p = pc as u64;
            let v = return_bits(exit);
            assert((v >> 16) & 0xFFFF == 1 && v & 0xFFFF == p) by (bit_vector)
                requires
                    p <= 0xFFFF,
                    v == (0x1_0000u64 + p) as u64,
            ;
        },
        JitExit::Jump { pc } => {
            let p = pc as u64;
            let v = return_bits(exit);
            assert((v >> 16) & 0xFFFF == 2 && v & 0xFFFF == p) by (bit_vector)
                requires
                    p <= 0xFFFF,
                    v == (0x2_0000u64 + p) as u64,
            ;
        },
        JitExit::InvalidateCache { pc, beg, end } => {
            let b = beg as u64;
            let e = end as u64;
            let p = pc as u64;
            let v = return_bits(exit);
            assert((v >> 16) & 0xFFFF == 3 && v & 0xFFFF == p && (v >> 48) == b && (v >> 32)
                & 0xFFFF == e) by (bit_vector)
                requires
                    b <= 0xFFFF,
                    e <= 0xFFFF,
                    p <= 0xFFFF,
                    v == (b * 0x1_0000_0000_0000u64 + e * 0x1_0000_0000u64 + 0x3_0000u64 + p) as u64,
            ;
        },
    }
}

/// Whether a native block ends with this handler's instruction.
pub open spec fn jit_ends_block(h: Handler) -> bool {
    h == Handler::H00EE || h == Handler::H1nnn || h == Handler::H2nnn || h == Handler::HBnnn
        || h == Handler::HFx33 || h == Handler::HFx55 || jit_defers(h)
}

/// Whether native code leaves this handler's instruction to the interpreter.
pub open spec fn jit_defers(h: Handler) -> bool {
    h == Handler::HCxkk || h == Handler::HDxyn || h == Handler::HFx0A
}

/// What decoding forward from an address finds for the compiler.
pub struct JitScan {
    /// The instructions the native block covers.
    pub instructions: Seq<CachedInstruction>,
    /// The address after the block.
    pub end_pc: int,
    /// Why the block cannot be compiled, if it cannot.
    pub fault: Option<Fault>,
}

/// The native block that starts at `pc`: successive words are decoded up
/// to and including the first whose instruction ends a native block. A
/// word that is no instruction, or that does not fit in memory, is a fault.
pub open spec fn jit_scan(memory: Seq<u8>, pc: int) -> JitScan
    decreases 4096 - pc,
{
    if pc < 0 || pc + 1 >= 4096 {
        JitScan {
            instructions: Seq::empty(),
            end_pc: pc,
            fault: Some(Fault::OutOfRange { pc: pc as u16 }),
        }
    } else {
        let opcode = fetch_spec(memory, pc);
        let execute = decode_spec(opcode);
        if execute == Handler::Invalid {
            JitScan {
                instructions: Seq::empty(),
                end_pc: pc,
                fault: Some(Fault::InvalidOpcode { opcode: opcode.0, pc: pc as u16 }),
            }
        } else if jit_ends_block(execute) {
            JitScan {
                instructions: seq![CachedInstruction { opcode, execute }],
                end_pc: pc + 2,
                fault: None,
            }
        } else {
            let rest = jit_scan(memory, pc + 2);
            JitScan {
                instructions: seq![CachedInstruction { opcode, execute }] + rest.instructions,
                ..rest
            }
        }
    }
}

/// The plan of the native block at `pc`, or the fault that prevents it.
pub open spec fn plan_spec(memory: Seq<u8>, pc: u16) -> Result<BlockView, Fault> {
    let found = jit_scan(memory, pc as int);
    match found.fault {
        Some(fault) => Err(fault),
        None => Ok(BlockView { pc, end_pc: found.end_pc as u16, instructions: found.instructions }),
    }
}

/// Whether a native block ends with this handler's instruction.
pub fn ends_native_block(h: Handler) -> (b: bool)
    ensures
        b == jit_ends_block(h),
{
    match h {
        Handler::H00EE
        | Handler::H1nnn
        | Handler::H2nnn
        | Handler::HBnnn
        | Handler::HFx33
        | Handler::HFx55 => true,
        _ => defers_to_interpreter(h),
    }
}

/// Whether native code leaves this handler's instruction to the
/// interpreter: drawing, random numbers and waiting for a key.
pub fn defers_to_interpreter(h: Handler) -> (b: bool)
    ensures
        b == jit_defers(h),
{
    match h {
        Handler::HCxkk | Handler::HDxyn | Handler::HFx0A => true,
        _ => false,
    }
}

/// The return values that the native code of one instruction is compiled with.
#[derive(Clone, Copy, Debug, PartialEq, Eq)]
pub struct NativeExits {
    /// The value returned to leave the instruction to the interpreter.
    pub deferred: Option<i64>,
    /// The value returned to leave the block at this instruction. For a
    /// return and a computed jump, native code fills in the address.
    pub taken: Option<i64>,
}

/// Whether the native code of this handler's instruction can leave the
/// instruction to the interpreter: always for those it defers, and at the
/// limits of the stack for a call and a return.
pub open spec fn may_defer(h: Handler) -> bool {
    jit_defers(h) || h == Handler::H00EE || h == Handler::H2nnn
}

/// Whether this handler's instruction skips the next one on a condition.
pub open spec fn is_skip(h: Handler) -> bool {
    h == Handler::H3xkk || h == Handler::H4xkk || h == Handler::H5xy0 || h == Handler::H9xy0 || h
        == Handler::HEx9E || h == Handler::HExA1
}

/// The address in the value returned when the instruction at `pc` leaves
/// its block: the target of a jump or a call, the address after the
/// skipped instruction for a skip, and 0, to be filled in, for a return.
pub open spec fn taken_target(h: Handler, op: Opcode, pc: u16) -> Option<u16> {
    if h == Handler::H1nnn || h == Handler::H2nnn || h == Handler::HBnnn {
        Some(op.nnn_spec())
    } else if h == Handler::H00EE {
        Some(0u16)
    } else if is_skip(h) {
        Some(pc.wrapping_add(4))
    } else {
        None
    }
}

/// The return values for the instruction `inst` at address `pc`.
pub open spec fn native_exits_spec(inst: CachedInstruction, pc: u16) -> NativeExits {
    NativeExits {
        deferred: if may_defer(inst.execute) {
            Some(return_value(JitExit::UseInterpreter { pc }) as i64)
        } else {
            None
        },
        taken: match taken_target(inst.execute, inst.opcode, pc) {
            Some(target) => Some(return_value(JitExit::Jump { pc: target }) as i64),
            None => None,
        },
    }
}

/// The return values that the native code of instruction `inst` at
/// address `current_pc` is compiled with.
pub fn native_exits(inst: CachedInstruction, current_pc: u16) -> (exits: NativeExits)
    ensures
        exits == native_exits_spec(inst, current_pc),
{
    let deferred = match inst.execute {
        Handler::H00EE | Handler::H2nnn => Some(Interrupts::use_interpreter(current_pc)),
        h => if defers_to_interpreter(h) {
            Some(Interrupts::use_interpreter(current_pc))
        } else {
            None
        },
    };
    let taken = match inst.execute {
        Handler::H1nnn | Handler::H2nnn | Handler::HBnnn => Some(
            Interrupts::jump(inst.opcode.nnn()),
        ),
        Handler::H00EE => Some(Interrupts::jump(0)),
        Handler::H3xkk
        | Handler::H4xkk
        | Handler::H5xy0
        | Handler::H9xy0
        | Handler::HEx9E
        | Handler::HExA1 => Some(Interrupts::jump(current_pc.wrapping_add(4))),
        _ => None,
    };
    NativeExits { deferred, taken }
}

/// Where a jump, a call below the stack limit or a skip that is taken
/// sends the interpreter is the address in the value that native code
/// returns for it.
pub proof fn lemma_taken_target_is_next_pc(s: StateView, h: Handler, op: Opcode, random: u8)
    requires
        h == Handler::H1nnn || (h == Handler::H2nnn && s.sp < 15) || is_skip(h),
        executable(s, h, op),
        code_spec(skip_next(s), h, op) == 1,
    ensures
        taken_target(h, op, s.pc) == Some(step_spec(skip_next(s), h, op, random).pc),
{
}

/// `s` with the program counter at `pc`.
pub open spec fn at_pc(s: State, pc: u16) -> State {
    State { pc, ..s }
}

/// What the core does with the decoded return of a native block.
pub open spec fn finish_post(
    before: Chip8,
    after: Chip8,
    exit: JitExit,
    r: Result<Option<Risp8Answer>, Fault>,
) -> bool {
    match exit {
        JitExit::UseInterpreter { pc } => interpreter_post(
            Chip8 { state: at_pc(before.state, pc), ..before },
            after,
            r,
        ) && after.jit_caches == before.jit_caches,
        JitExit::Jump { pc } => {
            &&& r == Ok::<Option<Risp8Answer>, Fault>(None)
            &&& after == (Chip8 { state: at_pc(before.state, pc), warning: None, ..before })
        },
        JitExit::InvalidateCache { pc, beg, end } => {
            &&& r == Ok::<Option<Risp8Answer>, Fault>(None)
            &&& after.state == at_pc(before.state, pc)
            &&& after.warning is None
            &&& after.jit_caches.caches@ == before.jit_caches.caches@.filter(
                |cache: Cache| !in_range(cache, beg, end),
            )
            &&& after.timer == before.timer
            &&& after.interpreter_caches == before.interpreter_caches
            &&& after.interpreter_caches_2 == before.interpreter_caches_2
            &&& after.interpreter_caches_3 == before.interpreter_caches_3
        },
    }
}

impl Chip8 {
    /// Plans the native block at `addr`: the instructions it covers and
    /// where it ends. The machine is not modified.
    pub fn plan_block(&self, addr: u16) -> (r: Result<InstructionCache, Fault>)
        ensures
            match r {
                Ok(block) => plan_spec(self.state@.memory, addr) == Ok::<BlockView, Fault>(
                    block@,
                ),
                Err(fault) => plan_spec(self.state@.memory, addr) == Err::<BlockView, Fault>(
                    fault,
                ),
            },
    {
        let mut pc: u16 = addr;
        let mut instructions: Vec<CachedInstruction> = Vec::new();
        let ghost memory = self.state@.memory;
        let ghost whole = jit_scan(memory, addr as int);
        let mut done = false;
        while !done
            invariant
                addr <= pc,
                done ==> pc <= 0x1000,
                memory == self.state@.memory,
                whole == jit_scan(memory, addr as int),
                !done ==> whole == (JitScan {
                    instructions: instructions@ + jit_scan(memory, pc as int).instructions,
                    ..jit_scan(memory, pc as int)
                }),
                done ==> whole == (JitScan {
                    instructions: instructions@,
                    end_pc: pc as int,
                    fault: None,
                }),
            decreases 0x10000 - pc + (if done { 0int } else { 1int }),
        {
            let ghost before = instructions@;
            if pc >= 0xFFF {
                assert(before + Seq::<CachedInstruction>::empty() =~= before);
                return Err(Fault::OutOfRange { pc });
            }
            let opcode = fetch(&self.state.memory, pc);
            let execute = decode(opcode);
            if execute == Handler::Invalid {
                assert(before + Seq::<CachedInstruction>::empty() =~= before);
                return Err(Fault::InvalidOpcode { opcode: opcode.0, pc });
            }
            instructions.push(CachedInstruction { opcode, execute });
            pc = pc + 2;
            let ghost one = seq![CachedInstruction { opcode, execute }];
            assert(before + one =~= instructions@);
            if ends_native_block(execute) {
                done = true;
            } else {
                assert(before + (one + jit_scan(memory, pc as int).instructions) =~= (before + one)
                    + jit_scan(memory, pc as int).instructions);
            }
        }
        Ok(InstructionCache { pc: addr, end_pc: pc, instructions })
    }

    /// Applies the decoded return of a native block: sets the program
    /// counter, and then runs one interpreter step or drops native blocks
    /// if the block asked for it.
    pub fn jit_finish(&mut self, exit: JitExit) -> (r: Result<Option<Risp8Answer>, Fault>)
        ensures
            old(self).wf() ==> final(self).wf(),
            finish_post(*old(self), *final(self), exit, r),
            final(self).play == old(self).play,
            final(self).execution_method == old(self).execution_method,
            final(self).decoder == old(self).decoder,
    {
        match exit {
            JitExit::UseInterpreter { pc } => {
                self.state.pc = pc;
                self.interpreter()
            },
            JitExit::Jump { pc } => {
                self.state.pc = pc;
                self.warning = None;
                Ok(None)
            },
            JitExit::InvalidateCache { pc, beg, end } => {
                self.state.pc = pc;
                self.warning = None;
                self.jit_caches.invalidate(beg, end);
                Ok(None)
            },
        }
    }
}

} // verus!
