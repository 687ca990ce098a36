//! Cached interpreter: each slot of the table holds the block of decoded
//! instructions that starts at its address. A store to memory drops the
//! blocks that contain an end of the range written, found by scanning the
//! whole table.

use vstd::prelude::*;
use crate::block::{
    build_block, build_spec, run_block, run_result, run_spec, BlockView, InstructionCache,
};
use crate::chip8::{core_result, handle_timers, Chip8, Risp8Answer};
use crate::instruction::{control, control_spec, step_result, Control, Fault, StepView};
use crate::state::StateView;

verus! {

/// Converts a guest address to the index of its slot.
pub fn addr_to_index(addr: u16) -> (index: usize)
    requires
        addr >= 0x200,
    ensures
        index == addr - 0x200,
{
    addr as usize - 0x200
}

/// The model of a cache table: the model of each block it holds.
pub open spec fn slots_view(slots: Seq<Option<InstructionCache>>) -> Seq<Option<BlockView>> {
    Seq::new(
        slots.len(),
        |k: int|
            match slots[k] {
                Some(block) => Some(block@),
                None => None,
            },
    )
}

/// Whether `block` contains `lo` or `hi`, the ends of a range written.
pub open spec fn holds_end(block: BlockView, lo: u16, hi: u16) -> bool {
    (block.pc <= lo < block.end_pc) || (block.pc <= hi < block.end_pc)
}

/// The table after the blocks that contain `lo` or `hi` are dropped.
pub open spec fn invalidate_spec(slots: Seq<Option<BlockView>>, lo: u16, hi: u16) -> Seq<
    Option<BlockView>,
> {
    Seq::new(
        slots.len(),
        |k: int|
            match slots[k] {
                Some(block) => if holds_end(block, lo, hi) {
                    None
                } else {
                    Some(block)
                },
                None => None,
            },
    )
}

/// The table after a block has returned `code`: an invalidation code
/// drops blocks, any other code leaves the table as it is.
pub open spec fn after_code(slots: Seq<Option<BlockView>>, code: u32) -> Seq<Option<BlockView>> {
    match control_spec(code) {
        Control::Invalidate { lo, hi } => invalidate_spec(slots, lo, hi),
        _ => slots,
    }
}

/// One step of the cached interpreter from state `s` with table `slots`,
/// timers aside: the block at `pc` is built if its slot is empty, then
/// run, then the table is updated as the block's code asks.
pub open spec fn cached_spec(s: StateView, slots: Seq<Option<BlockView>>, randoms: Seq<u8>) -> (
    StepView,
    Seq<Option<BlockView>>,
) {
    if 0x200 <= s.pc < 0x200 + slots.len() {
        let index = s.pc - 0x200;
        let found = match slots[index] {
            Some(block) => Ok(block),
            None => build_spec(s.memory, s.pc, false),
        };
        match found {
            Err(fault) => (StepView { state: s, code: 0, fault: Some(fault), warning: None }, slots),
            Ok(block) => {
                let out = run_spec(
                    s,
                    block.instructions,
                    randoms,
                    block.instructions.len() as int,
                );
                let filled = slots.update(index, Some(block));
                (
                    out,
                    if out.fault is None {
                        after_code(filled, out.code)
                    } else {
                        filled
                    },
                )
            },
        }
    } else {
        (StepView { state: s, code: 0, fault: Some(Fault::NoCacheSlot { pc: s.pc }), warning: None }, slots)
    }
}

/// What a step of the cached interpreter leaves behind: for some random
/// bytes, the machine, the table and the result of one step and the
/// timers; the other cache tables as they were.
pub open spec fn cached_post(
    before: Chip8,
    after: Chip8,
    r: Result<Option<Risp8Answer>, Fault>,
) -> bool {
    &&& exists|randoms: Seq<u8>|
        {
            let (out, slots) = #[trigger] cached_spec(
                before.state@,
                slots_view(before.interpreter_caches@),
                randoms,
            );
            &&& core_result(out, after.state@, r)
            &&& slots_view(after.interpreter_caches@) == slots
            &&& after.warning == out.warning
        }
    &&& after.interpreter_caches_2 == before.interpreter_caches_2
    &&& after.interpreter_caches_3 == before.interpreter_caches_3
    &&& after.jit_caches == before.jit_caches
}

impl Chip8 {
    /// Executes a block of instructions using the cached interpreter, then
    /// handles the timers.
    pub fn cached_interpreter(&mut self) -> (r: Result<Option<Risp8Answer>, Fault>)
        ensures
            old(self).wf() ==> final(self).wf(),
            cached_post(*old(self), *final(self), r),
            final(self).play == old(self).play,
            final(self).execution_method == old(self).execution_method,
            final(self).decoder == old(self).decoder,
            final(self).jit_caches == old(self).jit_caches,
    {
        let ghost s0 = self.state@;
        let ghost slots0 = slots_view(self.interpreter_caches@);
        let pc = self.state.pc;
        self.warning = None;
        if pc < 0x200 || pc as usize - 0x200 >= self.interpreter_caches.len() {
            let fault = Fault::NoCacheSlot { pc };
            assert(core_result(cached_spec(s0, slots0, Seq::empty()).0, self.state@, Err(fault)));
            return Err(fault);
        }
        let cache_index = addr_to_index(pc);
        if self.interpreter_caches[cache_index].is_none() {
            match self.new_cache_block() {
                Err(fault) => {
                    assert(core_result(
                        cached_spec(s0, slots0, Seq::empty()).0,
                        self.state@,
                        Err(fault),
                    ));
                    return Err(fault);
                },
                Ok(block) => {
                    self.interpreter_caches.set(cache_index, Some(block));
                },
            }
        }
        let ghost block = self.interpreter_caches@[cache_index as int].unwrap()@;
        let ghost filled = slots0.update(cache_index as int, Some(block));
        assert(slots_view(self.interpreter_caches@) =~= filled);
        let (ran, warned) = match &self.interpreter_caches[cache_index] {
            Some(cache) => run_block(&mut self.state, &cache.instructions),
            None => (Err(Fault::NoCacheSlot { pc }), None),
        };
        self.warning = warned;
        let ghost randoms = choose|randoms: Seq<u8>|
            run_result(
                #[trigger] run_spec(s0, block.instructions, randoms, block.instructions.len() as int),
                self.state@,
                ran,
                warned,
            );
        let ghost out = run_spec(s0, block.instructions, randoms, block.instructions.len() as int);
        assert(cached_spec(s0, slots0, randoms).0 == out);
        match ran {
            Err(fault) => {
                assert(cached_spec(s0, slots0, randoms).1 == filled);
                Err(fault)
            },
            Ok(code) => {
                match control(code) {
                    Control::Invalidate { lo, hi } => {
                        self.invalidate_cache(lo, hi);
                    },
                    _ => {},
                }
                assert(slots_view(self.interpreter_caches@) == after_code(filled, code));
                let answer = handle_timers(&mut self.state, &mut self.timer);
                Ok(answer)
            },
        }
    }

    /// Decodes the block at the current program counter. The machine is
    /// not modified.
    pub fn new_cache_block(&self) -> (r: Result<InstructionCache, Fault>)
        ensures
            match r {
                Ok(block) => build_spec(self.state@.memory, self.state.pc, false) == Ok::<
                    BlockView,
                    Fault,
                >(block@),
                Err(fault) => build_spec(self.state@.memory, self.state.pc, false) == Err::<
                    BlockView,
                    Fault,
                >(fault),
            },
    {
        build_block(&self.state.memory, self.state.pc, false)
    }

    /// Drops every block that contains `beg_addr` or `end_addr`.
    pub fn invalidate_cache(&mut self, beg_addr: u16, end_addr: u16)
        ensures
            slots_view(final(self).interpreter_caches@) == invalidate_spec(
                slots_view(old(self).interpreter_caches@),
                beg_addr,
                end_addr,
            ),
            final(self).interpreter_caches@.len() == old(self).interpreter_caches@.len(),
            final(self).state == old(self).state,
            final(self).timer == old(self).timer,
            final(self).play == old(self).play,
            final(self).execution_method == old(self).execution_method,
            final(self).decoder == old(self).decoder,
            final(self).jit_caches == old(self).jit_caches,
            final(self).warning == old(self).warning,
            final(self).interpreter_caches_2 == old(self).interpreter_caches_2,
            final(self).interpreter_caches_3 == old(self).interpreter_caches_3,
    {
        let ghost before = slots_view(self.interpreter_caches@);
        let n = self.interpreter_caches.len();
        let mut k: usize = 0;
        while k < n
            invariant
                k <= n,
                n == self.interpreter_caches@.len(),
                before == slots_view(old(self).interpreter_caches@),
                before.len() == n,
                forall|j: int|
                    0 <= j < k ==> slots_view(self.interpreter_caches@)[j] == invalidate_spec(
                        before,
                        beg_addr,
                        end_addr,
                    )[j],
                forall|j: int| k <= j < n ==> slots_view(self.interpreter_caches@)[j] == before[j],
                self.state == old(self).state,
                self.timer == old(self).timer,
                self.play == old(self).play,
                self.execution_method == old(self).execution_method,
                self.decoder == old(self).decoder,
                self.jit_caches == old(self).jit_caches,
                self.warning == old(self).warning,
                self.interpreter_caches_2 == old(self).interpreter_caches_2,
                self.interpreter_caches_3 == old(self).interpreter_caches_3,
            decreases n - k,
        {
            let hit = match &self.interpreter_caches[k] {
                Some(cache) => (beg_addr >= cache.pc && beg_addr < cache.end_pc) || (end_addr
                    >= cache.pc && end_addr < cache.end_pc),
                None => false,
            };
            if hit {
                self.interpreter_caches.set(k, None);
            }
            k += 1;
        }
        assert(slots_view(self.interpreter_caches@) =~= invalidate_spec(
            before,
            beg_addr,
            end_addr,
        ));
    }
}

/// Whether `block` holds an address of `lo..=hi`.
pub open spec fn overlaps(block: BlockView, lo: u16, hi: u16) -> bool {
    block.pc <= hi && lo < block.end_pc
}

/// After a store to `lo..=hi` was answered, every block left in the table
/// was there before and contains neither end of the range. A block that is
/// left and still overlaps the range lies strictly between its ends.
pub proof fn lemma_invalidate_drops_ends(slots: Seq<Option<BlockView>>, lo: u16, hi: u16, k: int)
    requires
        0 <= k < slots.len(),
        lo <= hi,
        invalidate_spec(slots, lo, hi)[k] is Some,
    ensures
        slots[k] == invalidate_spec(slots, lo, hi)[k],
        !holds_end(slots[k].unwrap(), lo, hi),
        overlaps(slots[k].unwrap(), lo, hi) ==> lo < slots[k].unwrap().pc && slots[k].unwrap().end_pc
            <= hi,
{
}

/// A block that does not contain an end of the range written stays in the table.
pub proof fn lemma_invalidate_keeps_others(slots: Seq<Option<BlockView>>, lo: u16, hi: u16, k: int)
    requires
        0 <= k < slots.len(),
        slots[k] matches Some(block) ==> !holds_end(block, lo, hi),
    ensures
        invalidate_spec(slots, lo, hi)[k] == slots[k],
{
}

} // verus!
