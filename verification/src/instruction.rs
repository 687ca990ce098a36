//! What each instruction does, as functions on the model of the machine.
//!
//! Every instruction is executed after the program counter has been moved
//! past it, so `pc` in these functions is the address of the next instruction.

use vstd::prelude::*;
use crate::opcode::Opcode;
use crate::state::{blank_screen, draw_spec, wait_key_done, wait_key_spec, StateView};

verus! {

/// The semantic routine an instruction word selects, named after its bit
/// pattern: upper-case nibbles are literal, lower-case ones are operands.
#[allow(non_camel_case_types)]
#[derive(Clone, Copy, Debug, PartialEq, Eq, Structural)]
pub enum Handler {
    H00E0,
    H00EE,
    H1nnn,
    H2nnn,
    H3xkk,
    H4xkk,
    H5xy0,
    H6xkk,
    H7xkk,
    H8xy0,
    H8xy1,
    H8xy2,
    H8xy3,
    H8xy4,
    H8xy5,
    H8xy6,
    H8xy7,
    H8xyE,
    H9xy0,
    HAnnn,
    HBnnn,
    HCxkk,
    HDxyn,
    HEx9E,
    HExA1,
    HFx07,
    HFx0A,
    HFx15,
    HFx18,
    HFx1E,
    HFx29,
    HFx33,
    HFx55,
    HFx65,
    /// No instruction has this word.
    Invalid,
}

/// Why a backend could not execute the instruction at `pc`. The machine is
/// left as it was before that instruction.
#[derive(Clone, Copy, Debug, PartialEq, Eq, Structural)]
pub enum Fault {
    /// The word at `pc` is no instruction.
    InvalidOpcode { opcode: u16, pc: u16 },
    /// The instruction at `pc`, or its operands, lie outside of memory,
    /// the stack or the keypad.
    OutOfRange { pc: u16 },
    /// `pc` is outside `0x200..0x1000`, where the caching backends have no slot.
    NoCacheSlot { pc: u16 },
}

/// Meaning of the control code an instruction returns.
#[derive(Clone, Copy, Debug, PartialEq, Eq, Structural)]
pub enum Control {
    /// Code 0: fall through to the next instruction.
    Continue,
    /// Code 1: the current block ends here.
    EndBlock,
    /// Any other code: guest memory in `lo..=hi` was written; drop the
    /// cached code that lies there, then end the block.
    Invalidate { lo: u16, hi: u16 },
}

/// The one decoding of a control code.
pub open spec fn control_spec(code: u32) -> Control {
    if code == 0 {
        Control::Continue
    } else if code == 1 {
        Control::EndBlock
    } else {
        Control::Invalidate { lo: (code >> 16) as u16, hi: (code & 0xFFFF) as u16 }
    }
}

/// The control code that asks to invalidate `lo..=hi`.
pub open spec fn invalidate_code(lo: u16, hi: u16) -> u32 {
    ((lo as u32) << 16) | (hi as u32)
}

/// Decodes a control code.
pub fn control(code: u32) -> (c: Control)
    ensures
        c == control_spec(code),
{
    if code == 0 {
        Control::Continue
    } else if code == 1 {
        Control::EndBlock
    } else {
        assert((code >> 16) <= 0xFFFF && (code & 0xFFFF) <= 0xFFFF) by (bit_vector);
        Control::Invalidate { lo: (code >> 16) as u16, hi: (code & 0xFFFF) as u16 }
    }
}

/// An invalidation code decodes to the range it was made from, unless the
/// range is `0..=0` or `0..=1`, whose codes are those of `Continue` and `EndBlock`.
pub proof fn lemma_invalidate_code_decodes(lo: u16, hi: u16)
    ensures
        invalidate_code(lo, hi) > 1 <==> (lo > 0 || hi > 1),
        lo > 0 || hi > 1 ==> control_spec(invalidate_code(lo, hi)) == (Control::Invalidate {
            lo,
            hi,
        }),
        lo == 0 && hi == 0 ==> control_spec(invalidate_code(lo, hi)) == Control::Continue,
        lo == 0 && hi == 1 ==> control_spec(invalidate_code(lo, hi)) == Control::EndBlock,
{
    let code = invalidate_code(lo, hi);
    assert(((((lo as u32) << 16) | (hi as u32)) >> 16) as u16 == lo && (((lo as u32) << 16) | (
    hi as u32)) & 0xFFFF == hi as u32 && ((((lo as u32) << 16) | (hi as u32)) > 1 <==> (lo > 0
        || hi > 1)) && (lo == 0 ==> (((lo as u32) << 16) | (hi as u32)) == hi as u32))
        by (bit_vector);
}

/// Whether executing handler `h` on word `op` in state `s` is defined:
/// the word is an instruction and every memory, stack and key index it
/// uses is in range.
pub open spec fn executable(s: StateView, h: Handler, op: Opcode) -> bool {
    match h {
        Handler::H00EE => s.sp <= 16,
        Handler::HDxyn => s.i + op.n_spec() <= 4096,
        Handler::HEx9E | Handler::HExA1 => s.v[op.x_spec() as int] < 16,
        Handler::HFx33 => s.i + 2 < 4096,
        Handler::HFx55 | Handler::HFx65 => s.i + op.x_spec() < 4096,
        Handler::Invalid => false,
        _ => true,
    }
}

/// `s` with the program counter moved past one more instruction.
pub open spec fn skip_next(s: StateView) -> StateView {
    StateView { pc: s.pc.wrapping_add(2), ..s }
}

/// `s` after a conditional skip whose condition is `taken`.
pub open spec fn skip_if(s: StateView, taken: bool) -> StateView {
    if taken {
        skip_next(s)
    } else {
        s
    }
}

/// `s` with register `x` set to `value`.
pub open spec fn set_v(s: StateView, x: int, value: u8) -> StateView {
    StateView { v: s.v.update(x, value), ..s }
}

/// `s` with register `x` set to `value`, then the flag register set to `flag`.
pub open spec fn set_v_flag(s: StateView, x: int, value: u8, flag: bool) -> StateView {
    StateView {
        v: s.v.update(x, value).update(
            15,
            if flag {
                1u8
            } else {
                0u8
            },
        ),
        ..s
    }
}

/// Memory after the three decimal digits of `value` are written at `i`.
pub open spec fn store_bcd(memory: Seq<u8>, i: int, value: u8) -> Seq<u8> {
    memory.update(i, value / 100).update(i + 1, (value / 10) % 10).update(i + 2, value % 10)
}

/// Memory after registers `0..=x` are written at `i..=i + x`.
pub open spec fn store_registers(memory: Seq<u8>, v: Seq<u8>, i: int, x: int) -> Seq<u8> {
    Seq::new(
        memory.len(),
        |a: int|
            if i <= a <= i + x {
                v[a - i]
            } else {
                memory[a]
            },
    )
}

/// Registers after `0..=x` are read from memory at `i..=i + x`.
pub open spec fn load_registers(memory: Seq<u8>, v: Seq<u8>, i: int, x: int) -> Seq<u8> {
    Seq::new(
        v.len(),
        |k: int|
            if k <= x {
                memory[i + k]
            } else {
                v[k]
            },
    )
}

/// The machine after handler `h` has executed word `op` in state `s`.
/// `random` is the byte drawn by the random-number instruction; no other
/// instruction looks at it.
pub open spec fn step_spec(s: StateView, h: Handler, op: Opcode, random: u8) -> StateView {
    let x = op.x_spec() as int;
    let y = op.y_spec() as int;
    let kk = op.kk_spec();
    let nnn = op.nnn_spec();
    match h {
        Handler::H00E0 => StateView { screen: blank_screen(), ..s },
        Handler::H00EE => if s.sp > 0 {
            StateView { sp: s.sp - 1, pc: s.stack[s.sp - 1], ..s }
        } else {
            s
        },
        Handler::H1nnn => StateView { pc: nnn, ..s },
        Handler::H2nnn => if s.sp < 15 {
            StateView { stack: s.stack.update(s.sp, s.pc), sp: s.sp + 1, pc: nnn, ..s }
        } else {
            s
        },
        Handler::H3xkk => skip_if(s, s.v[x] == kk),
        Handler::H4xkk => skip_if(s, s.v[x] != kk),
        Handler::H5xy0 => skip_if(s, s.v[x] == s.v[y]),
        Handler::H6xkk => set_v(s, x, kk),
        Handler::H7xkk => set_v(s, x, s.v[x].wrapping_add(kk)),
        Handler::H8xy0 => set_v(s, x, s.v[y]),
        Handler::H8xy1 => set_v(s, x, s.v[x] | s.v[y]),
        Handler::H8xy2 => set_v(s, x, s.v[x] & s.v[y]),
        Handler::H8xy3 => set_v(s, x, s.v[x] ^ s.v[y]),
        Handler::H8xy4 => set_v_flag(s, x, s.v[x].wrapping_add(s.v[y]), s.v[x] + s.v[y] > 255),
        Handler::H8xy5 => set_v_flag(s, x, s.v[x].wrapping_sub(s.v[y]), s.v[x] >= s.v[y]),
        Handler::H8xy6 => set_v_flag(s, x, s.v[x] / 2, s.v[x] % 2 == 1),
        Handler::H8xy7 => set_v_flag(s, x, s.v[y].wrapping_sub(s.v[x]), s.v[y] >= s.v[x]),
        Handler::H8xyE => set_v_flag(s, x, ((s.v[x] * 2) % 256) as u8, s.v[x] >= 128),
        Handler::H9xy0 => skip_if(s, s.v[x] != s.v[y]),
        Handler::HAnnn => StateView { i: nnn, ..s },
        Handler::HBnnn => StateView { pc: (nnn + s.v[0]) as u16, ..s },
        Handler::HCxkk => set_v(s, x, random & kk),
        Handler::HDxyn => draw_spec(s, x, y, op.n_spec() as int),
        Handler::HEx9E => skip_if(s, s.keys[s.v[x] as int]),
        Handler::HExA1 => skip_if(s, !s.keys[s.v[x] as int]),
        Handler::HFx07 => set_v(s, x, s.delay),
        Handler::HFx0A => if wait_key_done(s) {
            wait_key_spec(s, x)
        } else {
            StateView { pc: s.pc.wrapping_sub(2), ..wait_key_spec(s, x) }
        },
        Handler::HFx15 => StateView { delay: s.v[x], ..s },
        Handler::HFx18 => StateView { sound: s.v[x], ..s },
        Handler::HFx1E => StateView { i: s.i.wrapping_add(s.v[x] as u16), ..s },
        Handler::HFx29 => StateView { i: (s.v[x] * 5) as u16, ..s },
        Handler::HFx33 => StateView { memory: store_bcd(s.memory, s.i as int, s.v[x]), ..s },
        Handler::HFx55 => StateView {
            memory: store_registers(s.memory, s.v, s.i as int, x),
            ..s
        },
        Handler::HFx65 => StateView { v: load_registers(s.memory, s.v, s.i as int, x), ..s },
        Handler::Invalid => s,
    }
}

/// The control code handler `h` returns for word `op` in state `s`.
pub open spec fn code_spec(s: StateView, h: Handler, op: Opcode) -> u32 {
    let x = op.x_spec() as int;
    let y = op.y_spec() as int;
    let kk = op.kk_spec();
    match h {
        Handler::H00EE | Handler::H1nnn | Handler::H2nnn | Handler::HBnnn => 1,
        Handler::H3xkk => if s.v[x] == kk {
            1
        } else {
            0
        },
        Handler::H4xkk => if s.v[x] != kk {
            1
        } else {
            0
        },
        Handler::H5xy0 => if s.v[x] == s.v[y] {
            1
        } else {
            0
        },
        Handler::H9xy0 => if s.v[x] != s.v[y] {
            1
        } else {
            0
        },
        Handler::HEx9E => if s.keys[s.v[x] as int] {
            1
        } else {
            0
        },
        Handler::HExA1 => if !s.keys[s.v[x] as int] {
            1
        } else {
            0
        },
        Handler::HFx0A => if wait_key_done(s) {
            0
        } else {
            1
        },
        Handler::HFx55 => invalidate_code(s.i, (s.i + x) as u16),
        _ => 0,
    }
}

/// The handler that word `op` selects, by the nibbles of the word, the
/// highest first. A word that fits none of the 34 instruction patterns
/// selects `Invalid`.
pub open spec fn decode_spec(op: Opcode) -> Handler {
    let w = op.0 as int;
    let n0 = w / 4096;
    let n1 = (w / 256) % 16;
    let n2 = (w / 16) % 16;
    let n3 = w % 16;
    if n0 == 0x0 {
        if n1 == 0 && n2 == 0xE && n3 == 0x0 {
            Handler::H00E0
        } else if n1 == 0 && n2 == 0xE && n3 == 0xE {
            Handler::H00EE
        } else {
            Handler::Invalid
        }
    } else if n0 == 0x1 {
        Handler::H1nnn
    } else if n0 == 0x2 {
        Handler::H2nnn
    } else if n0 == 0x3 {
        Handler::H3xkk
    } else if n0 == 0x4 {
        Handler::H4xkk
    } else if n0 == 0x5 {
        if n3 == 0 {
            Handler::H5xy0
        } else {
            Handler::Invalid
        }
    } else if n0 == 0x6 {
        Handler::H6xkk
    } else if n0 == 0x7 {
        Handler::H7xkk
    } else if n0 == 0x8 {
        if n3 == 0x0 {
            Handler::H8xy0
        } else if n3 == 0x1 {
            Handler::H8xy1
        } else if n3 == 0x2 {
            Handler::H8xy2
        } else if n3 == 0x3 {
            Handler::H8xy3
        } else if n3 == 0x4 {
            Handler::H8xy4
        } else if n3 == 0x5 {
            Handler::H8xy5
        } else if n3 == 0x6 {
            Handler::H8xy6
        } else if n3 == 0x7 {
            Handler::H8xy7
        } else if n3 == 0xE {
            Handler::H8xyE
        } else {
            Handler::Invalid
        }
    } else if n0 == 0x9 {
        if n3 == 0 {
            Handler::H9xy0
        } else {
            Handler::Invalid
        }
    } else if n0 == 0xA {
        Handler::HAnnn
    } else if n0 == 0xB {
        Handler::HBnnn
    } else if n0 == 0xC {
        Handler::HCxkk
    } else if n0 == 0xD {
        Handler::HDxyn
    } else if n0 == 0xE {
        if n2 == 0x9 && n3 == 0xE {
            Handler::HEx9E
        } else if n2 == 0xA && n3 == 0x1 {
            Handler::HExA1
        } else {
            Handler::Invalid
        }
    } else {
        if n2 == 0x0 && n3 == 0x7 {
            Handler::HFx07
        } else if n2 == 0x0 && n3 == 0xA {
            Handler::HFx0A
        } else if n2 == 0x1 && n3 == 0x5 {
            Handler::HFx15
        } else if n2 == 0x1 && n3 == 0x8 {
            Handler::HFx18
        } else if n2 == 0x1 && n3 == 0xE {
            Handler::HFx1E
        } else if n2 == 0x2 && n3 == 0x9 {
            Handler::HFx29
        } else if n2 == 0x3 && n3 == 0x3 {
            Handler::HFx33
        } else if n2 == 0x5 && n3 == 0x5 {
            Handler::HFx55
        } else if n2 == 0x6 && n3 == 0x5 {
            Handler::HFx65
        } else {
            Handler::Invalid
        }
    }
}

/// The instruction word at address `pc`: two bytes, high byte first.
pub open spec fn fetch_spec(memory: Seq<u8>, pc: int) -> Opcode {
    Opcode(((memory[pc] as u16) << 8) | (memory[pc + 1] as u16))
}

/// Whether a block of straight-line code ends with this handler's
/// instruction: it may leave the sequential path, or it stores to memory
/// and asks for an invalidation.
pub open spec fn ends_block(h: Handler) -> bool {
    h == Handler::H00EE || h == Handler::H1nnn || h == Handler::H2nnn || h == Handler::HBnnn
        || h == Handler::HFx0A || h == Handler::HFx55
}

/// Only the random-number instruction depends on the random byte.
pub proof fn lemma_random_only_in_cxkk(s: StateView, h: Handler, op: Opcode, r1: u8, r2: u8)
    requires
        h != Handler::HCxkk,
    ensures
        step_spec(s, h, op, r1) == step_spec(s, h, op, r2),
{
}

/// Every instruction keeps the shape of the machine, and keeps the stack
/// depth at 15 or less: a call at depth 15 does nothing, so depth 16 is
/// never reached.
pub proof fn lemma_step_preserves_wf(s: StateView, h: Handler, op: Opcode, random: u8)
    requires
        s.wf(),
        executable(s, h, op),
    ensures
        step_spec(s, h, op, random).wf(),
{
    op.lemma_field_bounds();
}

/// A return at depth 0 changes nothing and ends the block.
pub proof fn lemma_return_on_empty_stack(s: StateView, op: Opcode, random: u8)
    requires
        s.sp == 0,
    ensures
        step_spec(s, Handler::H00EE, op, random) == s,
        code_spec(s, Handler::H00EE, op) == 1,
{
}

/// A call at depth 15 changes nothing and ends the block, so the stack
/// never reaches depth 16.
pub proof fn lemma_call_on_full_stack(s: StateView, op: Opcode, random: u8)
    requires
        s.sp >= 15,
    ensures
        step_spec(s, Handler::H2nnn, op, random) == s,
        code_spec(s, Handler::H2nnn, op) == 1,
{
}

/// Storing registers `0..=x` and loading them back, with the address
/// register untouched in between, restores every register.
pub proof fn lemma_store_load_round_trip(s: StateView, op: Opcode, r1: u8, r2: u8)
    requires
        s.shaped(),
        executable(s, Handler::HFx55, op),
    ensures
        executable(step_spec(s, Handler::HFx55, op, r1), Handler::HFx65, op),
        step_spec(step_spec(s, Handler::HFx55, op, r1), Handler::HFx65, op, r2).v == s.v,
{
    op.lemma_field_bounds();
    let mid = step_spec(s, Handler::HFx55, op, r1);
    assert(step_spec(mid, Handler::HFx65, op, r2).v =~= s.v);
}

/// A call or a return that the stack cannot serve. The instruction then
/// does nothing but end its block, and the host is to be told.
#[derive(Clone, Copy, Debug, PartialEq, Eq, Structural)]
pub enum StackWarning {
    /// A return with nothing on the stack.
    Underflow,
    /// A call with the stack at its limit.
    Overflow,
}

/// The warning that executing handler `h` in state `s` gives rise to.
pub open spec fn stack_warning_spec(s: StateView, h: Handler) -> Option<StackWarning> {
    if h == Handler::H00EE && s.sp == 0 {
        Some(StackWarning::Underflow)
    } else if h == Handler::H2nnn && s.sp >= 15 {
        Some(StackWarning::Overflow)
    } else {
        None
    }
}

/// What one step of a backend comes to: the machine afterwards, the control
/// code of the last instruction executed, the warning that this
/// instruction gave rise to, and the fault that stopped the step, if one did.
pub struct StepView {
    pub state: StateView,
    pub code: u32,
    pub fault: Option<Fault>,
    pub warning: Option<StackWarning>,
}

/// The fault of an instruction that cannot be executed at `pc`.
pub open spec fn fault_spec(h: Handler, op: Opcode, pc: u16) -> Fault {
    if h == Handler::Invalid {
        Fault::InvalidOpcode { opcode: op.0, pc }
    } else {
        Fault::OutOfRange { pc }
    }
}

/// Executing, in state `s`, the instruction `op` that lies at `s.pc`, with
/// handler `h`: the program counter moves past it and the handler runs. If
/// the instruction is not executable the machine stays as it is and the
/// fault says why.
#[verifier::opaque]
pub open spec fn execute_at_spec(s: StateView, h: Handler, op: Opcode, random: u8) -> StepView {
    if executable(s, h, op) {
        StepView {
            state: step_spec(skip_next(s), h, op, random),
            code: code_spec(skip_next(s), h, op),
            fault: None,
            warning: stack_warning_spec(s, h),
        }
    } else {
        StepView { state: s, code: 0, fault: Some(fault_spec(h, op, s.pc)), warning: None }
    }
}

/// One step of the interpreter from state `s`: fetch the word at `pc`,
/// decode it, execute it.
pub open spec fn interpreter_spec(s: StateView, random: u8) -> StepView {
    if s.pc + 1 < 4096 {
        let op = fetch_spec(s.memory, s.pc as int);
        execute_at_spec(s, decode_spec(op), op, random)
    } else {
        StepView { state: s, code: 0, fault: Some(Fault::OutOfRange { pc: s.pc }), warning: None }
    }
}

/// Whether machine `after` and result `r` are what a step that came to
/// `out` leaves behind.
pub open spec fn step_result(out: StepView, after: StateView, r: Result<u32, Fault>) -> bool {
    &&& after == out.state
    &&& match r {
        Ok(code) => out.fault is None && code == out.code,
        Err(f) => out.fault == Some(f),
    }
}

/// The last instruction address, `0xFFE`, still holds a whole word; one
/// byte further it does not.
pub proof fn lemma_last_instruction_address(s: StateView, random: u8)
    requires
        s.shaped(),
    ensures
        s.pc == 0xFFE ==> interpreter_spec(s, random) == execute_at_spec(
            s,
            decode_spec(fetch_spec(s.memory, 0xFFE)),
            fetch_spec(s.memory, 0xFFE),
            random,
        ),
        s.pc >= 0xFFF ==> interpreter_spec(s, random).fault == Some(
            Fault::OutOfRange { pc: s.pc },
        ),
{
}

/// An instruction that returns code 0 leaves the program counter just past itself.
pub proof fn lemma_code_zero_is_sequential(s: StateView, h: Handler, op: Opcode, random: u8)
    requires
        executable(s, h, op),
        execute_at_spec(s, h, op, random).code == 0,
    ensures
        execute_at_spec(s, h, op, random).state.pc == s.pc.wrapping_add(2),
{
    reveal(execute_at_spec);
}

/// Every instruction keeps the shape of the machine.
pub proof fn lemma_step_preserves_shape(s: StateView, h: Handler, op: Opcode, random: u8)
    requires
        s.shaped(),
        executable(s, h, op),
    ensures
        step_spec(skip_next(s), h, op, random).shaped(),
        execute_at_spec(s, h, op, random).state.shaped(),
{
    reveal(execute_at_spec);
    op.lemma_field_bounds();
}

/// Whether `now` holds outside `lo..=hi` what `then` held there.
pub open spec fn kept_outside(now: Seq<u8>, then: Seq<u8>, lo: int, hi: int) -> bool {
    &&& now.len() == then.len()
    &&& forall|a: int| 0 <= a < then.len() && !(lo <= a <= hi) ==> now[a] == then[a]
}

/// Only two instructions write to memory: the one that stores decimal
/// digits writes three bytes at the address register, the one that
/// stores registers writes the bytes that its code reports.
pub proof fn lemma_step_memory(s: StateView, h: Handler, op: Opcode, random: u8)
    requires
        s.shaped(),
        executable(s, h, op),
    ensures
        h != Handler::HFx33 && h != Handler::HFx55 ==> execute_at_spec(
            s,
            h,
            op,
            random,
        ).state.memory == s.memory,
        h == Handler::HFx33 ==> kept_outside(
            execute_at_spec(s, h, op, random).state.memory,
            s.memory,
            s.i as int,
            s.i + 2,
        ),
        h == Handler::HFx55 ==> kept_outside(
            execute_at_spec(s, h, op, random).state.memory,
            s.memory,
            s.i as int,
            s.i + op.x_spec(),
        ),
        h == Handler::HFx55 ==> execute_at_spec(s, h, op, random).code == invalidate_code(
            s.i,
            (s.i + op.x_spec()) as u16,
        ),
{
    reveal(execute_at_spec);
    op.lemma_field_bounds();
}

/// Only a return on an empty stack and a call on a full one give rise to
/// a warning; both end their block, so a warning is that of the last
/// instruction of a step.
pub proof fn lemma_warning_ends_block(s: StateView, h: Handler, op: Opcode, random: u8)
    ensures
        execute_at_spec(s, h, op, random).warning == if executable(s, h, op) {
            stack_warning_spec(s, h)
        } else {
            None
        },
        execute_at_spec(s, h, op, random).fault is None <==> executable(s, h, op),
        execute_at_spec(s, h, op, random).warning is Some ==> execute_at_spec(
            s,
            h,
            op,
            random,
        ).code == 1 && execute_at_spec(s, h, op, random).state == skip_next(s),
{
    reveal(execute_at_spec);
}

} // verus!
