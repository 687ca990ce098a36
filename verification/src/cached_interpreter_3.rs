//! Cached interpreter, per-instruction: each slot of the table holds the
//! decoded instruction at its address. A store to memory clears the slots
//! of the addresses written.

use vstd::prelude::*;
use crate::block::{fetch, CachedInstruction};
use crate::cached_interpreter::addr_to_index;
use crate::chip8::{core_result, handle_timers, Chip8, Risp8Answer};
use crate::instruction::{
    control, control_spec, decode_spec, execute_at_spec, fetch_spec, lemma_warning_ends_block,
    step_result, Control, Fault, StepView,
};
use crate::state::StateView;

verus! {

/// The table after the slots of the addresses `lo..=hi` are cleared.
/// Addresses outside `0x200..0x1000` have no slot.
pub open spec fn clear_range_spec(slots: Seq<Option<CachedInstruction>>, lo: u16, hi: u16) -> Seq<
    Option<CachedInstruction>,
> {
    Seq::new(
        slots.len(),
        |k: int|
            if lo <= k + 0x200 <= hi {
                None
            } else {
                slots[k]
            },
    )
}

/// The table after an instruction has returned `code`.
pub open spec fn after_code_3(slots: Seq<Option<CachedInstruction>>, code: u32) -> Seq<
    Option<CachedInstruction>,
> {
    match control_spec(code) {
        Control::Invalidate { lo, hi } => clear_range_spec(slots, lo, hi),
        _ => slots,
    }
}

/// The table after a step that came to `out`.
pub open spec fn after_step_3(slots: Seq<Option<CachedInstruction>>, out: StepView) -> Seq<
    Option<CachedInstruction>,
> {
    if out.fault is None {
        after_code_3(slots, out.code)
    } else {
        slots
    }
}

/// One step of the per-instruction cached interpreter from state `s` with
/// table `slots`, timers aside: the instruction at `pc` is decoded if its
/// slot is empty, then executed, then the table is updated as its code asks.
pub open spec fn cached_3_spec(
    s: StateView,
    slots: Seq<Option<CachedInstruction>>,
    random: u8,
) -> (StepView, Seq<Option<CachedInstruction>>) {
    if 0x200 <= s.pc < 0x200 + slots.len() {
        let index = s.pc - 0x200;
        match slots[index] {
            Some(inst) => {
                let out = execute_at_spec(s, inst.execute, inst.opcode, random);
                (out, after_step_3(slots, out))
            },
            None => if s.pc + 1 < 4096 {
                let opcode = fetch_spec(s.memory, s.pc as int);
                let inst = CachedInstruction { opcode, execute: decode_spec(opcode) };
                let out = execute_at_spec(s, inst.execute, inst.opcode, random);
                (out, after_step_3(slots.update(index, Some(inst)), out))
            } else {
                (
                    StepView { state: s, code: 0, fault: Some(Fault::OutOfRange { pc: s.pc }), warning: None },
                    slots,
                )
            },
        }
    } else {
        (StepView { state: s, code: 0, fault: Some(Fault::NoCacheSlot { pc: s.pc }), warning: None }, slots)
    }
}

/// What a step of the per-instruction cached interpreter leaves behind:
/// for some random byte, the machine, the table and the result of one
/// step and the timers; the other cache tables as they were.
pub open spec fn cached_3_post(
    before: Chip8,
    after: Chip8,
    r: Result<Option<Risp8Answer>, Fault>,
) -> bool {
    &&& exists|random: u8|
        {
            let (out, slots) = #[trigger] cached_3_spec(
                before.state@,
                before.interpreter_caches_3@,
                random,
            );
            &&& core_result(out, after.state@, r)
            &&& after.interpreter_caches_3@ == slots
            &&& after.warning == out.warning
        }
    &&& after.interpreter_caches == before.interpreter_caches
    &&& after.interpreter_caches_2 == before.interpreter_caches_2
    &&& after.jit_caches == before.jit_caches
}

impl Chip8 {
    /// Executes a single instruction using the per-instruction cached
    /// interpreter, then handles the timers.
    pub fn cached_interpreter_3(&mut self) -> (r: Result<Option<Risp8Answer>, Fault>)
        ensures
            old(self).wf() ==> final(self).wf(),
            cached_3_post(*old(self), *final(self), r),
            final(self).play == old(self).play,
            final(self).execution_method == old(self).execution_method,
            final(self).decoder == old(self).decoder,
            final(self).jit_caches == old(self).jit_caches,
    {
        let ghost s0 = self.state@;
        let ghost slots0 = self.interpreter_caches_3@;
        let pc = self.state.pc;
        self.warning = None;
        if pc < 0x200 || pc as usize - 0x200 >= self.interpreter_caches_3.len() {
            let fault = Fault::NoCacheSlot { pc };
            assert(core_result(cached_3_spec(s0, slots0, 0).0, self.state@, Err(fault)));
            return Err(fault);
        }
        let cache_index = addr_to_index(pc);
        let inst = match self.interpreter_caches_3[cache_index] {
            Some(inst) => inst,
            None => {
                if pc >= 0xFFF {
                    let fault = Fault::OutOfRange { pc };
                    assert(core_result(cached_3_spec(s0, slots0, 0).0, self.state@, Err(fault)));
                    return Err(fault);
                }
                let opcode = fetch(&self.state.memory, pc);
                let execute = self.decoder.lookup(opcode);
                let inst = CachedInstruction { opcode, execute };
                self.interpreter_caches_3.set(cache_index, Some(inst));
                inst
            },
        };
        let ghost filled = self.interpreter_caches_3@;
        let warned = self.state.stack_warning(inst.execute);
        let ran = self.state.execute_at(inst.execute, inst.opcode);
        let ghost random = choose|random: u8|
            step_result(
                #[trigger] execute_at_spec(s0, inst.execute, inst.opcode, random),
                self.state@,
                ran,
            );
        let ghost out = execute_at_spec(s0, inst.execute, inst.opcode, random);
        proof {
            lemma_warning_ends_block(s0, inst.execute, inst.opcode, random);
        }
        self.warning = match ran {
            Ok(_) => warned,
            Err(_) => None,
        };
        assert(cached_3_spec(s0, slots0, random).0 == out);
        assert(cached_3_spec(s0, slots0, random).1 == after_step_3(filled, out));
        match ran {
            Err(fault) => Err(fault),
            Ok(code) => {
                match control(code) {
                    Control::Invalidate { lo, hi } => {
                        self.invalidate_cache_3(lo, hi);
                    },
                    _ => {},
                }
                let answer = handle_timers(&mut self.state, &mut self.timer);
                Ok(answer)
            },
        }
    }

    /// Clears the slots of the addresses `beg_addr..=end_addr`.
    pub fn invalidate_cache_3(&mut self, beg_addr: u16, end_addr: u16)
        ensures
            final(self).interpreter_caches_3@ == clear_range_spec(
                old(self).interpreter_caches_3@,
                beg_addr,
                end_addr,
            ),
            final(self).state == old(self).state,
            final(self).timer == old(self).timer,
            final(self).play == old(self).play,
            final(self).execution_method == old(self).execution_method,
            final(self).decoder == old(self).decoder,
            final(self).jit_caches == old(self).jit_caches,
            final(self).warning == old(self).warning,
            final(self).interpreter_caches == old(self).interpreter_caches,
            final(self).interpreter_caches_2 == old(self).interpreter_caches_2,
    {
        let ghost before = self.interpreter_caches_3@;
        let n = self.interpreter_caches_3.len();
        let beg: usize = if beg_addr < 0x200 {
            0
        } else {
            beg_addr as usize - 0x200
        };
        if end_addr >= 0x200 {
            let end: usize = end_addr as usize - 0x200;
            let mut k: usize = beg;
            while k < n && k <= end
                invariant
                    beg <= k,
                    k == beg || k <= end + 1,
                    end == end_addr - 0x200,
                    beg == if beg_addr < 0x200 {
                        0
                    } else {
                        beg_addr - 0x200
                    },
                    before == old(self).interpreter_caches_3@,
                    before.len() == n,
                    self.interpreter_caches_3@.len() == n,
                    forall|j: int|
                        0 <= j < n ==> self.interpreter_caches_3@[j] == if beg <= j < k {
                            None
                        } else {
                            before[j]
                        },
                    self.state == old(self).state,
                    self.timer == old(self).timer,
                    self.play == old(self).play,
                    self.execution_method == old(self).execution_method,
                    self.decoder == old(self).decoder,
                    self.jit_caches == old(self).jit_caches,
                    self.warning == old(self).warning,
                    self.interpreter_caches == old(self).interpreter_caches,
                    self.interpreter_caches_2 == old(self).interpreter_caches_2,
                decreases n - k,
            {
                self.interpreter_caches_3.set(k, None);
                k += 1;
            }
        }
        assert(self.interpreter_caches_3@ =~= clear_range_spec(before, beg_addr, end_addr));
    }
}

/// After a store to `lo..=hi` was answered, every instruction left in the
/// table was there before and does not start in the range. One that is
/// left and still overlaps the range starts one byte before it.
pub proof fn lemma_clear_range_drops_written(
    slots: Seq<Option<CachedInstruction>>,
    lo: u16,
    hi: u16,
    k: int,
)
    requires
        0 <= k < slots.len(),
        lo <= hi,
        clear_range_spec(slots, lo, hi)[k] is Some,
    ensures
        clear_range_spec(slots, lo, hi)[k] == slots[k],
        !(lo <= k + 0x200 <= hi),
        (k + 0x200 <= hi && lo <= k + 0x201) ==> k + 0x200 == lo - 1,
{
}

/// An instruction that does not start in the range written stays in the table.
pub proof fn lemma_clear_range_keeps_others(
    slots: Seq<Option<CachedInstruction>>,
    lo: u16,
    hi: u16,
    k: int,
)
    requires
        0 <= k < slots.len(),
        !(lo <= k + 0x200 <= hi),
    ensures
        clear_range_spec(slots, lo, hi)[k] == slots[k],
{
}

} // verus!
