//! Cached interpreter, pooled: the addresses `0x200..0x1000` are split
//! into pools of 16 bytes, and each pool holds the blocks that start in
//! it, one slot per address. Every instruction of a block starts in the
//! pool of the block, so a store to memory is answered by dropping whole
//! pools, without a scan. A block from an even address lies within its
//! pool; one from an odd address can reach one byte into the next.

use vstd::prelude::*;
use crate::block::{
    build_block, build_spec, run_block, run_result, run_spec, scan, BlockView, InstructionCache,
};
use crate::cached_interpreter::{overlaps, slots_view};
use crate::chip8::{core_result, handle_timers, Chip8, Risp8Answer};
use crate::instruction::{control, control_spec, step_result, Control, Fault, StepView};
use crate::state::StateView;

verus! {

/// The pool of a guest address.
pub open spec fn pool_index(addr: int) -> int {
    (addr - 0x200) / 16
}

/// The slot of a guest address in its pool.
pub open spec fn pool_offset(addr: int) -> int {
    (addr - 0x200) % 16
}

/// Converts a guest address to the index of its pool.
pub fn addr_to_index(addr: u16) -> (index: usize)
    requires
        addr >= 0x200,
    ensures
        index == pool_index(addr as int),
{
    let offset: usize = addr as usize - 0x200;
    assert(offset >> 4 == offset / 16) by (bit_vector);
    offset >> 4
}

/// Converts a guest address to the index of its slot in its pool.
pub fn index_in_subcache(addr: u16) -> (index: usize)
    requires
        addr >= 0x200,
    ensures
        index == pool_offset(addr as int),
        index < 16,
{
    let offset: usize = addr as usize - 0x200;
    assert(offset & 0xF == offset % 16) by (bit_vector);
    offset & 0xF
}

/// The model of a pooled cache table.
pub open spec fn pools_view(pools: Seq<Option<[Option<InstructionCache>; 16]>>) -> Seq<
    Option<Seq<Option<BlockView>>>,
> {
    Seq::new(
        pools.len(),
        |p: int|
            match pools[p] {
                Some(pool) => Some(slots_view(pool@)),
                None => None,
            },
    )
}

/// A pool with nothing in it.
pub open spec fn empty_pool() -> Seq<Option<BlockView>> {
    Seq::new(16, |k: int| None)
}

/// Whether pool `p` holds an address of `lo..=hi`.
pub open spec fn pool_in_range(p: int, lo: u16, hi: u16) -> bool {
    let beg = if lo < 0x200 {
        0x200
    } else {
        lo as int
    };
    let end = if hi > 0xFFF {
        0xFFF
    } else {
        hi as int
    };
    beg <= end && pool_index(beg) <= p <= pool_index(end)
}

/// The table after every pool that holds an address of `lo..=hi` is dropped.
pub open spec fn clear_pools_spec(
    pools: Seq<Option<Seq<Option<BlockView>>>>,
    lo: u16,
    hi: u16,
) -> Seq<Option<Seq<Option<BlockView>>>> {
    Seq::new(
        pools.len(),
        |p: int|
            if pool_in_range(p, lo, hi) {
                None
            } else {
                pools[p]
            },
    )
}

/// The table after a block has returned `code`.
pub open spec fn after_code_2(pools: Seq<Option<Seq<Option<BlockView>>>>, code: u32) -> Seq<
    Option<Seq<Option<BlockView>>>,
> {
    match control_spec(code) {
        Control::Invalidate { lo, hi } => clear_pools_spec(pools, lo, hi),
        _ => pools,
    }
}

/// Whether the table has a slot for address `pc`: it has the pool of
/// `pc`, and that pool, if it is made, has its 16 slots.
pub open spec fn has_slot(pc: u16, pools: Seq<Option<Seq<Option<BlockView>>>>) -> bool {
    &&& 0x200 <= pc
    &&& pool_index(pc as int) < pools.len()
    &&& pools[pool_index(pc as int)] matches Some(pool) ==> pool.len() == 16
}

/// One step of the pooled cached interpreter from state `s` with table
/// `pools`, timers aside: the pool of `pc` is made if it is missing, the
/// block at `pc` is built if its slot is empty, then run, then the table
/// is updated as the block's code asks.
pub open spec fn cached_2_spec(
    s: StateView,
    pools: Seq<Option<Seq<Option<BlockView>>>>,
    randoms: Seq<u8>,
) -> (StepView, Seq<Option<Seq<Option<BlockView>>>>) {
    if has_slot(s.pc, pools) {
        let p = pool_index(s.pc as int);
        let q = pool_offset(s.pc as int);
        let pool = match pools[p] {
            Some(pool) => pool,
            None => empty_pool(),
        };
        let found = match pool[q] {
            Some(block) => Ok(block),
            None => build_spec(s.memory, s.pc, true),
        };
        match found {
            Err(fault) => (
                StepView { state: s, code: 0, fault: Some(fault), warning: None },
                pools.update(p, Some(pool)),
            ),
            Ok(block) => {
                let out = run_spec(
                    s,
                    block.instructions,
                    randoms,
                    block.instructions.len() as int,
                );
                let filled = pools.update(p, Some(pool.update(q, Some(block))));
                (
                    out,
                    if out.fault is None {
                        after_code_2(filled, out.code)
                    } else {
                        filled
                    },
                )
            },
        }
    } else {
        (StepView { state: s, code: 0, fault: Some(Fault::NoCacheSlot { pc: s.pc }), warning: None }, pools)
    }
}

/// What a step of the pooled cached interpreter leaves behind: for some
/// random bytes, the machine, the table and the result of one step and
/// the timers; the other cache tables as they were.
pub open spec fn cached_2_post(
    before: Chip8,
    after: Chip8,
    r: Result<Option<Risp8Answer>, Fault>,
) -> bool {
    &&& exists|randoms: Seq<u8>|
        {
            let (out, pools) = #[trigger] cached_2_spec(
                before.state@,
                pools_view(before.interpreter_caches_2@),
                randoms,
            );
            &&& core_result(out, after.state@, r)
            &&& pools_view(after.interpreter_caches_2@) == pools
            &&& after.warning == out.warning
        }
    &&& after.interpreter_caches == before.interpreter_caches
    &&& after.interpreter_caches_3 == before.interpreter_caches_3
    &&& after.jit_caches == before.jit_caches
}

/// Whether every pool of `after` is the pool of `before` at its place, or
/// is dropped.
pub open spec fn kept_or_dropped(
    before: Seq<Option<[Option<InstructionCache>; 16]>>,
    after: Seq<Option<[Option<InstructionCache>; 16]>>,
) -> bool {
    &&& after.len() == before.len()
    &&& forall|p: int| 0 <= p < before.len() ==> (#[trigger] after[p]) is None || after[p] == before[p]
}

impl Chip8 {
    /// Executes a block of instructions using the pooled cached
    /// interpreter, then handles the timers.
    pub fn cached_interpreter_2(&mut self) -> (r: Result<Option<Risp8Answer>, Fault>)
        ensures
            old(self).wf() ==> final(self).wf(),
            cached_2_post(*old(self), *final(self), r),
            final(self).play == old(self).play,
            final(self).execution_method == old(self).execution_method,
            final(self).decoder == old(self).decoder,
            final(self).jit_caches == old(self).jit_caches,
    {
        let ghost s0 = self.state@;
        let ghost pools0 = pools_view(self.interpreter_caches_2@);
        let pc = self.state.pc;
        self.warning = None;
        if pc < 0x200 || addr_to_index(pc) >= self.interpreter_caches_2.len() {
            let fault = Fault::NoCacheSlot { pc };
            assert(core_result(cached_2_spec(s0, pools0, Seq::empty()).0, self.state@, Err(fault)));
            return Err(fault);
        }
        let pool_index = addr_to_index(pc);
        let cache_index = index_in_subcache(pc);
        let mut taken: Option<[Option<InstructionCache>; 16]> = None;
        self.interpreter_caches_2.set_and_swap(pool_index, &mut taken);
        let mut pool = match taken {
            Some(pool) => pool,
            None => [
                None,
                None,
                None,
                None,
                None,
                None,
                None,
                None,
                None,
                None,
                None,
                None,
                None,
                None,
                None,
                None,
            ],
        };
        let ghost pool0 = slots_view(pool@);
        assert(pools0[pool_index as int] is None ==> pool0 =~= empty_pool());
        if pool[cache_index].is_none() {
            match Self::new_cache_block_2(pc, &self.state.memory) {
                Err(fault) => {
                    self.interpreter_caches_2.set(pool_index, Some(pool));
                    assert(pools_view(self.interpreter_caches_2@) =~= pools0.update(
                        pool_index as int,
                        Some(pool0),
                    ));
                    assert(core_result(
                        cached_2_spec(s0, pools0, Seq::empty()).0,
                        self.state@,
                        Err(fault),
                    ));
                    return Err(fault);
                },
                Ok(block) => {
                    pool[cache_index] = Some(block);
                },
            }
        }
        let ghost block = pool@[cache_index as int].unwrap()@;
        assert(slots_view(pool@) =~= pool0.update(cache_index as int, Some(block)));
        let (ran, warned) = match &pool[cache_index] {
            Some(cache) => run_block(&mut self.state, &cache.instructions),
            None => (Err(Fault::NoCacheSlot { pc }), None),
        };
        self.warning = warned;
        self.interpreter_caches_2.set(pool_index, Some(pool));
        let ghost filled = pools0.update(
            pool_index as int,
            Some(pool0.update(cache_index as int, Some(block))),
        );
        assert(pools_view(self.interpreter_caches_2@) =~= filled);
        let ghost randoms = choose|randoms: Seq<u8>|
            run_result(
                #[trigger] run_spec(s0, block.instructions, randoms, block.instructions.len() as int),
                self.state@,
                ran,
                warned,
            );
        let ghost out = run_spec(s0, block.instructions, randoms, block.instructions.len() as int);
        assert(cached_2_spec(s0, pools0, randoms).0 == out);
        match ran {
            Err(fault) => {
                assert(cached_2_spec(s0, pools0, randoms).1 == filled);
                Err(fault)
            },
            Ok(code) => {
                match control(code) {
                    Control::Invalidate { lo, hi } => {
                        self.invalidate_cache_2(lo, hi);
                    },
                    _ => {},
                }
                assert(pools_view(self.interpreter_caches_2@) == after_code_2(filled, code));
                let answer = handle_timers(&mut self.state, &mut self.timer);
                Ok(answer)
            },
        }
    }

    /// Decodes the block at `block_pc`, stopping with the last instruction
    /// that starts in the pool of `block_pc`.
    pub fn new_cache_block_2(block_pc: u16, memory: &[u8; 4096]) -> (r: Result<
        InstructionCache,
        Fault,
    >)
        ensures
            match r {
                Ok(block) => build_spec(memory@, block_pc, true) == Ok::<BlockView, Fault>(block@),
                Err(fault) => build_spec(memory@, block_pc, true) == Err::<BlockView, Fault>(
                    fault,
                ),
            },
            r matches Ok(block) ==> block_pc >= 0x200 ==> starts_in_pool(block@),
    {
        let r = build_block(memory, block_pc, true);
        proof {
            if block_pc >= 0x200 {
                lemma_pooled_block_bounds(memory@, block_pc as int);
            }
        }
        r
    }

    /// Drops every pool that holds an address of `beg_addr..=end_addr`.
    pub fn invalidate_cache_2(&mut self, beg_addr: u16, end_addr: u16)
        ensures
            pools_view(final(self).interpreter_caches_2@) == clear_pools_spec(
                pools_view(old(self).interpreter_caches_2@),
                beg_addr,
                end_addr,
            ),
            final(self).interpreter_caches_2@.len() == old(self).interpreter_caches_2@.len(),
            kept_or_dropped(old(self).interpreter_caches_2@, final(self).interpreter_caches_2@),
            final(self).state == old(self).state,
            final(self).timer == old(self).timer,
            final(self).play == old(self).play,
            final(self).execution_method == old(self).execution_method,
            final(self).decoder == old(self).decoder,
            final(self).jit_caches == old(self).jit_caches,
            final(self).warning == old(self).warning,
            final(self).interpreter_caches == old(self).interpreter_caches,
            final(self).interpreter_caches_3 == old(self).interpreter_caches_3,
    {
        let ghost before = self.interpreter_caches_2@;
        let n = self.interpreter_caches_2.len();
        let beg_clamped: u16 = if beg_addr < 0x200 {
            0x200
        } else {
            beg_addr
        };
        let end_clamped: u16 = if end_addr > 0xFFF {
            0xFFF
        } else {
            end_addr
        };
        if beg_clamped <= end_clamped {
            let beg = addr_to_index(beg_clamped);
            let end = addr_to_index(end_clamped);
            let mut p: usize = beg;
            while p <= end && p < n
                invariant
                    beg <= p <= end + 1,
                    end < 0xE0,
                    before == old(self).interpreter_caches_2@,
                    before.len() == n,
                    self.interpreter_caches_2@.len() == n,
                    forall|k: int|
                        0 <= k < n ==> #[trigger] self.interpreter_caches_2@[k] == if beg <= k
                            < p {
                            None
                        } else {
                            before[k]
                        },
                    self.state == old(self).state,
                    self.timer == old(self).timer,
                    self.play == old(self).play,
                    self.execution_method == old(self).execution_method,
                    self.decoder == old(self).decoder,
                    self.jit_caches == old(self).jit_caches,
                    self.warning == old(self).warning,
                    self.interpreter_caches == old(self).interpreter_caches,
                    self.interpreter_caches_3 == old(self).interpreter_caches_3,
                decreases end + 1 - p,
            {
                self.interpreter_caches_2.set(p, None);
                p += 1;
            }
        }
        assert(pools_view(self.interpreter_caches_2@) =~= clear_pools_spec(
            pools_view(before),
            beg_addr,
            end_addr,
        ));
    }
}

/// Whether `block` has at most 8 instructions and each of them starts in
/// the pool of the block.
pub open spec fn starts_in_pool(block: BlockView) -> bool {
    &&& block.instructions.len() <= 8
    &&& forall|j: int|
        0 <= j < block.instructions.len() ==> #[trigger] pool_index(block.pc + 2 * j)
            == pool_index(block.pc as int)
}

/// Whether `block` lies within pool `p`.
pub open spec fn block_in_pool(block: BlockView, p: int) -> bool {
    0x200 + 16 * p <= block.pc && block.end_pc <= 0x200 + 16 * (p + 1)
}

/// A pooled block has at most 8 instructions, and ends where its pool
/// ends, at the latest; from an odd address it can end one byte later.
pub proof fn lemma_pooled_block_bounds(memory: Seq<u8>, pc: int)
    requires
        0x200 <= pc,
    ensures
        2 * scan(memory, pc, true).instructions.len() <= 17 - pool_offset(pc),
        scan(memory, pc, true).instructions.len() <= 8,
        !scan(memory, pc, true).overrun ==> pc <= scan(memory, pc, true).end_pc <= 0x200 + 16 * (
        pool_index(pc) + 1) + pool_offset(pc) % 2,
    decreases 4096 - pc,
{
    if pc + 1 < 4096 {
        let execute = crate::instruction::decode_spec(crate::instruction::fetch_spec(memory, pc));
        if execute != crate::instruction::Handler::Invalid && !(crate::instruction::ends_block(
            execute,
        ) || crate::block::last_of_pool(pc)) {
            lemma_pooled_block_bounds(memory, pc + 2);
        }
    }
}

/// Every instruction of a pooled block starts in the pool of the block,
/// from whatever address the block starts.
pub proof fn lemma_pooled_block_in_pool(memory: Seq<u8>, pc: int, j: int)
    requires
        0x200 <= pc,
        0 <= j < scan(memory, pc, true).instructions.len(),
    ensures
        pool_index(pc + 2 * j) == pool_index(pc),
{
    lemma_pooled_block_bounds(memory, pc);
}

/// After a store to `lo..=hi` was answered, no block is left that lies
/// within its pool and holds an address of the range.
pub proof fn lemma_clear_pools_drops_overlapping(
    pools: Seq<Option<Seq<Option<BlockView>>>>,
    lo: u16,
    hi: u16,
    p: int,
    q: int,
)
    requires
        0 <= p < pools.len(),
        pools.len() == 0xE0,
        lo <= hi,
        clear_pools_spec(pools, lo, hi)[p] matches Some(pool) && 0 <= q < pool.len() && (pool[q]
            matches Some(block) && block_in_pool(block, p) && block.pc < block.end_pc),
    ensures
        clear_pools_spec(pools, lo, hi)[p] == pools[p],
        !overlaps(clear_pools_spec(pools, lo, hi)[p].unwrap()[q].unwrap(), lo, hi),
{
    let block = pools[p].unwrap()[q].unwrap();
    if overlaps(block, lo, hi) {
        let a: int = if block.pc >= lo {
            block.pc as int
        } else {
            lo as int
        };
        let beg: int = if lo < 0x200 {
            0x200
        } else {
            lo as int
        };
        let end: int = if hi > 0xFFF {
            0xFFF
        } else {
            hi as int
        };
        assert(0x200 + 16 * p <= a < 0x200 + 16 * (p + 1));
        assert(beg <= a <= end);
        assert(pool_index(a) == p);
        assert(pool_index(beg) <= pool_index(a) <= pool_index(end));
        assert(pool_in_range(p, lo, hi));
    }
}

/// A pool that holds no address of the range written stays in the table.
pub proof fn lemma_clear_pools_keeps_others(
    pools: Seq<Option<Seq<Option<BlockView>>>>,
    lo: u16,
    hi: u16,
    p: int,
)
    requires
        0 <= p < pools.len(),
        !pool_in_range(p, lo, hi),
    ensures
        clear_pools_spec(pools, lo, hi)[p] == pools[p],
{
}

} // verus!
