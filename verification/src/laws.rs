//! Laws that relate the backends to each other: what a cached backend
//! does in one step is what the interpreter does in as many steps as the
//! block ran instructions.

use vstd::prelude::*;
use crate::block::{
    build_spec, last_of_pool, lemma_run_stops, run_spec, scan, BlockView, CachedInstruction,
};
use crate::cached_interpreter::{cached_spec, holds_end};
use crate::cached_interpreter_2::{
    cached_2_spec, empty_pool, has_slot, lemma_pooled_block_bounds, pool_in_range, pool_index,
    pool_offset,
};
use crate::cached_interpreter_3::{cached_3_spec, clear_range_spec};
use crate::instruction::{
    control_spec, decode_spec, ends_block, executable, execute_at_spec, fetch_spec,
    interpreter_spec, invalidate_code, skip_next, step_spec, lemma_code_zero_is_sequential, lemma_invalidate_code_decodes,
    lemma_step_memory, lemma_step_preserves_shape, Control, Fault, Handler, StepView,
};
use crate::chip8::{Chip8, Risp8Answer};
use crate::interpreter::interpreter_post;
use crate::jit::{finish_post, JitExit};
use crate::state::StateView;

verus! {

/// `k` steps of the interpreter from state `s0`, stopping at the first
/// fault. `randoms[j]` is the random byte for step `j`.
pub open spec fn interpreter_steps(s0: StateView, randoms: Seq<u8>, k: int) -> StepView
    decreases k,
{
    if k <= 0 {
        StepView { state: s0, code: 0, fault: None, warning: None }
    } else {
        let before = interpreter_steps(s0, randoms, k - 1);
        if before.fault is Some {
            before
        } else {
            interpreter_spec(before.state, randoms[k - 1])
        }
    }
}

/// How many of the first `k` instructions of a block a run from `s0`
/// reaches: all of them, or those up to the one that stopped the run.
pub open spec fn run_count(
    s0: StateView,
    instructions: Seq<CachedInstruction>,
    randoms: Seq<u8>,
    k: int,
) -> int
    decreases k,
{
    if k <= 0 {
        0
    } else {
        let before = run_spec(s0, instructions, randoms, k - 1);
        if before.fault is Some || before.code != 0 {
            run_count(s0, instructions, randoms, k - 1)
        } else {
            k
        }
    }
}

/// Whether `now` holds at `from..to` what `then` held there.
pub open spec fn code_kept(now: Seq<u8>, then: Seq<u8>, from: int, to: int) -> bool {
    forall|a: int| from <= a < to ==> now[a] == then[a]
}

/// Instruction `j` of the block found at `pc` is the word at `pc + 2 * j`,
/// decoded, and that word lies in memory.
pub proof fn lemma_scan_index(memory: Seq<u8>, pc: int, pooled: bool, j: int)
    requires
        0 <= pc,
        0 <= j < scan(memory, pc, pooled).instructions.len(),
    ensures
        pc + 2 * j + 1 < 4096,
        scan(memory, pc, pooled).instructions[j] == (CachedInstruction {
            opcode: fetch_spec(memory, pc + 2 * j),
            execute: decode_spec(fetch_spec(memory, pc + 2 * j)),
        }),
        decode_spec(fetch_spec(memory, pc + 2 * j)) != Handler::Invalid,
        pc + 2 * scan(memory, pc, pooled).instructions.len() <= scan(memory, pc, pooled).end_pc,
    decreases 4096 - pc,
{
    if pc + 1 < 4096 {
        let opcode = fetch_spec(memory, pc);
        let execute = decode_spec(opcode);
        if execute != Handler::Invalid && !(ends_block(execute) || (pooled
            && last_of_pool(pc))) {
            let rest = scan(memory, pc + 2, pooled);
            if j > 0 {
                lemma_scan_index(memory, pc + 2, pooled, j - 1);
            } else if rest.instructions.len() > 0 {
                lemma_scan_index(memory, pc + 2, pooled, 0);
            }
        }
    }
}

/// A run that has not stopped after `j` instructions has run all of
/// them, each returning code 0, and the program counter has moved past them.
pub proof fn lemma_run_sequential(
    s0: StateView,
    instructions: Seq<CachedInstruction>,
    randoms: Seq<u8>,
    j: int,
)
    requires
        0 <= j,
        s0.pc + 2 * j < 0x10000,
        run_spec(s0, instructions, randoms, j).fault is None,
        run_spec(s0, instructions, randoms, j).code == 0,
    ensures
        run_spec(s0, instructions, randoms, j).state.pc == s0.pc + 2 * j,
        run_count(s0, instructions, randoms, j) == j,
        forall|i: int|
            0 <= i <= j ==> (#[trigger] run_spec(s0, instructions, randoms, i)).fault is None
                && run_spec(s0, instructions, randoms, i).code == 0,
    decreases j,
{
    if j > 0 {
        let before = run_spec(s0, instructions, randoms, j - 1);
        if before.fault is Some || before.code != 0 {
            lemma_run_stops(s0, instructions, randoms, j - 1, j);
        }
        lemma_run_sequential(s0, instructions, randoms, j - 1);
        let inst = instructions[j - 1];
        assert(executable(before.state, inst.execute, inst.opcode)) by {
            reveal(execute_at_spec);
        }
        lemma_code_zero_is_sequential(before.state, inst.execute, inst.opcode, randoms[j - 1]);
    }
}

/// Running the first `n` instructions of the block found at `pc` comes
/// to what the interpreter comes to in as many steps as the run reached
/// instructions, as long as the run does not overwrite the words of
/// these instructions.
pub proof fn lemma_block_matches_interpreter(s: StateView, pooled: bool, randoms: Seq<u8>, n: int)
    requires
        s.shaped(),
        0 <= n <= scan(s.memory, s.pc as int, pooled).instructions.len(),
        forall|i: int|
            0 <= i < n ==> code_kept(
                (#[trigger] run_spec(
                    s,
                    scan(s.memory, s.pc as int, pooled).instructions,
                    randoms,
                    i,
                )).state.memory,
                s.memory,
                s.pc as int,
                s.pc + 2 * n,
            ),
    ensures
        run_spec(s, scan(s.memory, s.pc as int, pooled).instructions, randoms, n)
            == interpreter_steps(
            s,
            randoms,
            run_count(s, scan(s.memory, s.pc as int, pooled).instructions, randoms, n),
        ),
    decreases n,
{
    let instructions = scan(s.memory, s.pc as int, pooled).instructions;
    if n > 0 {
        let before = run_spec(s, instructions, randoms, n - 1);
        assert forall|i: int| 0 <= i < n - 1 implies code_kept(
            (#[trigger] run_spec(s, instructions, randoms, i)).state.memory,
            s.memory,
            s.pc as int,
            s.pc + 2 * (n - 1),
        ) by {
            assert(code_kept(
                run_spec(s, instructions, randoms, i).state.memory,
                s.memory,
                s.pc as int,
                s.pc + 2 * n,
            ));
        }
        lemma_block_matches_interpreter(s, pooled, randoms, n - 1);
        if !(before.fault is Some || before.code != 0) {
            lemma_scan_index(s.memory, s.pc as int, pooled, n - 1);
            lemma_run_sequential(s, instructions, randoms, n - 1);
            let here = s.pc + 2 * (n - 1);
            assert(code_kept(before.state.memory, s.memory, s.pc as int, s.pc + 2 * n));
            assert(before.state.memory[here] == s.memory[here]);
            assert(before.state.memory[here + 1] == s.memory[here + 1]);
            assert(fetch_spec(before.state.memory, here) == fetch_spec(s.memory, here));
        }
    }
}

/// Whether `block` is what building at `pc` from `memory` gives.
pub open spec fn block_coherent(block: BlockView, memory: Seq<u8>, pc: u16, pooled: bool) -> bool {
    build_spec(memory, pc, pooled) == Ok::<BlockView, crate::instruction::Fault>(block)
}

/// One step of the cached interpreter comes to what the interpreter comes
/// to in as many steps as the block ran instructions. This holds when the
/// slot of `pc` is empty or holds the block that memory now gives, the
/// block can be built, and the run does not overwrite the block's words.
pub proof fn lemma_cached_matches_interpreter(
    s: StateView,
    slots: Seq<Option<BlockView>>,
    randoms: Seq<u8>,
)
    requires
        s.shaped(),
        0x200 <= s.pc < 0x200 + slots.len(),
        slots[s.pc - 0x200] matches Some(block) ==> block_coherent(block, s.memory, s.pc, false),
        build_spec(s.memory, s.pc, false) is Ok,
        forall|i: int|
            0 <= i < scan(s.memory, s.pc as int, false).instructions.len() ==> code_kept(
                (#[trigger] run_spec(
                    s,
                    scan(s.memory, s.pc as int, false).instructions,
                    randoms,
                    i,
                )).state.memory,
                s.memory,
                s.pc as int,
                s.pc + 2 * scan(s.memory, s.pc as int, false).instructions.len(),
            ),
    ensures
        cached_spec(s, slots, randoms).0 == interpreter_steps(
            s,
            randoms,
            run_count(
                s,
                scan(s.memory, s.pc as int, false).instructions,
                randoms,
                scan(s.memory, s.pc as int, false).instructions.len() as int,
            ),
        ),
{
    let instructions = scan(s.memory, s.pc as int, false).instructions;
    lemma_block_matches_interpreter(s, false, randoms, instructions.len() as int);
}

/// The same law for the pooled cached interpreter.
pub proof fn lemma_cached_2_matches_interpreter(
    s: StateView,
    pools: Seq<Option<Seq<Option<BlockView>>>>,
    randoms: Seq<u8>,
)
    requires
        s.shaped(),
        has_slot(s.pc, pools),
        pools[pool_index(s.pc as int)] matches Some(pool) ==> (pool[pool_offset(s.pc as int)]
            matches Some(block) ==> block_coherent(block, s.memory, s.pc, true)),
        build_spec(s.memory, s.pc, true) is Ok,
        forall|i: int|
            0 <= i < scan(s.memory, s.pc as int, true).instructions.len() ==> code_kept(
                (#[trigger] run_spec(
                    s,
                    scan(s.memory, s.pc as int, true).instructions,
                    randoms,
                    i,
                )).state.memory,
                s.memory,
                s.pc as int,
                s.pc + 2 * scan(s.memory, s.pc as int, true).instructions.len(),
            ),
    ensures
        cached_2_spec(s, pools, randoms).0 == interpreter_steps(
            s,
            randoms,
            run_count(
                s,
                scan(s.memory, s.pc as int, true).instructions,
                randoms,
                scan(s.memory, s.pc as int, true).instructions.len() as int,
            ),
        ),
{
    let instructions = scan(s.memory, s.pc as int, true).instructions;
    lemma_block_matches_interpreter(s, true, randoms, instructions.len() as int);
}

/// One step of the per-instruction cached interpreter comes to exactly
/// what one step of the interpreter comes to, when the slot of `pc` is
/// empty or holds the instruction that memory now gives.
pub proof fn lemma_cached_3_matches_interpreter(
    s: StateView,
    slots: Seq<Option<CachedInstruction>>,
    random: u8,
)
    requires
        s.shaped(),
        0x200 <= s.pc < 0x200 + slots.len(),
        slots[s.pc - 0x200] matches Some(inst) ==> s.pc + 1 < 4096 && inst == (CachedInstruction {
            opcode: fetch_spec(s.memory, s.pc as int),
            execute: decode_spec(fetch_spec(s.memory, s.pc as int)),
        }),
    ensures
        cached_3_spec(s, slots, random).0 == interpreter_spec(s, random),
{
}

/// A block ends after its start, within memory or at the address where
/// decoding ran off it.
pub proof fn lemma_scan_end(memory: Seq<u8>, pc: int, pooled: bool)
    requires
        0 <= pc,
    ensures
        scan(memory, pc, pooled).end_pc >= pc,
        pc + 1 < 4096 ==> scan(memory, pc, pooled).end_pc >= pc + 2,
        !scan(memory, pc, pooled).overrun ==> scan(memory, pc, pooled).end_pc <= 4096,
    decreases 4096 - pc,
{
    if pc + 1 < 4096 {
        let execute = decode_spec(fetch_spec(memory, pc));
        if execute != Handler::Invalid && !(ends_block(execute) || (pooled && last_of_pool(pc))) {
            lemma_scan_end(memory, pc + 2, pooled);
        }
    }
}

/// A block depends on the bytes it was decoded from only.
pub proof fn lemma_scan_frame(m1: Seq<u8>, m2: Seq<u8>, pc: int, pooled: bool)
    requires
        0 <= pc,
        code_kept(m2, m1, pc, scan(m1, pc, pooled).end_pc),
    ensures
        scan(m2, pc, pooled) == scan(m1, pc, pooled),
    decreases 4096 - pc,
{
    lemma_scan_end(m1, pc, pooled);
    if pc + 1 < 4096 {
        assert(m2[pc] == m1[pc] && m2[pc + 1] == m1[pc + 1]);
        let execute = decode_spec(fetch_spec(m1, pc));
        if execute != Handler::Invalid && !(ends_block(execute) || (pooled && last_of_pool(pc))) {
            lemma_scan_frame(m1, m2, pc + 2, pooled);
        }
    }
}

/// A block that was built from memory is what building gives again, as
/// long as the bytes of the block are as they were.
pub proof fn lemma_block_stays_coherent(m1: Seq<u8>, m2: Seq<u8>, pc: u16, pooled: bool)
    requires
        build_spec(m1, pc, pooled) is Ok,
        code_kept(
            m2,
            m1,
            pc as int,
            build_spec(m1, pc, pooled)->Ok_0.end_pc as int,
        ),
    ensures
        build_spec(m2, pc, pooled) == build_spec(m1, pc, pooled),
{
    lemma_scan_end(m1, pc as int, pooled);
    lemma_scan_frame(m1, m2, pc as int, pooled);
}

/// The range of memory that a run reports as written: that of its
/// invalidation code, or an empty one.
pub open spec fn reported(out: StepView) -> (int, int) {
    if out.fault is None {
        match control_spec(out.code) {
            Control::Invalidate { lo, hi } => (lo as int, hi as int),
            _ => (1, 0),
        }
    } else {
        (1, 0)
    }
}

/// Whether `now` holds from `0x200` on, outside `lo..=hi`, what `then` held.
pub open spec fn program_kept(now: Seq<u8>, then: Seq<u8>, lo: int, hi: int) -> bool {
    &&& now.len() == then.len()
    &&& forall|a: int| 0x200 <= a < then.len() && !(lo <= a <= hi) ==> now[a] == then[a]
}

/// A run that does not store decimal digits leaves the program area of
/// memory as it was, outside the range that it reports.
pub proof fn lemma_run_memory(
    s0: StateView,
    instructions: Seq<CachedInstruction>,
    randoms: Seq<u8>,
    k: int,
)
    requires
        s0.shaped(),
        0 <= k <= instructions.len(),
        forall|j: int| 0 <= j < k ==> (#[trigger] instructions[j]).execute != Handler::HFx33,
    ensures
        run_spec(s0, instructions, randoms, k).state.shaped(),
        program_kept(
            run_spec(s0, instructions, randoms, k).state.memory,
            s0.memory,
            reported(run_spec(s0, instructions, randoms, k)).0,
            reported(run_spec(s0, instructions, randoms, k)).1,
        ),
        reported(run_spec(s0, instructions, randoms, k)).0 <= reported(
            run_spec(s0, instructions, randoms, k),
        ).1 || reported(run_spec(s0, instructions, randoms, k)) == (1int, 0int),
    decreases k,
{
    if k > 0 {
        lemma_run_memory(s0, instructions, randoms, k - 1);
        let before = run_spec(s0, instructions, randoms, k - 1);
        if !(before.fault is Some || before.code != 0) {
            let inst = instructions[k - 1];
            let h = inst.execute;
            let op = inst.opcode;
            let out = execute_at_spec(before.state, h, op, randoms[k - 1]);
            assert(h != Handler::HFx33);
            if executable(before.state, h, op) {
                lemma_step_preserves_shape(before.state, h, op, randoms[k - 1]);
                lemma_step_memory(before.state, h, op, randoms[k - 1]);
                op.lemma_field_bounds();
                if h == Handler::HFx55 {
                    let lo = before.state.i;
                    let hi = (before.state.i + op.x_spec()) as u16;
                    lemma_invalidate_code_decodes(lo, hi);
                    assert(out.fault is None) by {
                        reveal(execute_at_spec);
                    }
                } else {
                    assert(out.fault is None && out.code <= 1) by {
                        reveal(execute_at_spec);
                    }
                }
            } else {
                assert(out.state == before.state && out.fault is Some) by {
                    reveal(execute_at_spec);
                }
            }
        }
    }
}

/// Whether slot `q` of pool `p` is empty or holds the block that
/// `memory` gives at its address.
pub open spec fn pool_slot_coherent(
    pools: Seq<Option<Seq<Option<BlockView>>>>,
    memory: Seq<u8>,
    p: int,
    q: int,
) -> bool {
    pools[p] matches Some(pool) ==> {
        &&& pool.len() == 16
        &&& pool[q] matches Some(block) ==> block_coherent(
            block,
            memory,
            (0x200 + 16 * p + q) as u16,
            true,
        )
    }
}

/// Whether every block of the pooled table is the one that `memory`
/// gives at its address.
pub open spec fn pools_coherent(pools: Seq<Option<Seq<Option<BlockView>>>>, memory: Seq<u8>) -> bool {
    forall|p: int, q: int|
        0 <= p < pools.len() && 0 <= q < 16 ==> #[trigger] pool_slot_coherent(pools, memory, p, q)
}

/// Whether the last byte of the block in slot `q` of pool `p` is `lo`,
/// the first byte of the next pool.
pub open spec fn spills_onto(
    pools: Seq<Option<Seq<Option<BlockView>>>>,
    p: int,
    q: int,
    lo: int,
) -> bool {
    pools[p] matches Some(pool) && (pool[q] matches Some(block) && block.end_pc == lo + 1 && lo
        == 0x200 + 16 * (p + 1))
}

/// After a step of the pooled cached interpreter, a block of the table
/// is stale only if it comes from an odd address, reaches one byte into
/// the next pool, and that byte is the first that the step has written:
/// if every block of the table is the one that memory gives, then after
/// a step whose block does not store decimal digits every block is so
/// again, for memory as the step left it, or its last byte is the first
/// of the range reported.
pub proof fn lemma_cached_2_keeps_coherence(
    s: StateView,
    pools: Seq<Option<Seq<Option<BlockView>>>>,
    randoms: Seq<u8>,
    p: int,
    q: int,
)
    requires
        s.shaped(),
        pools.len() == 0xE0,
        has_slot(s.pc, pools),
        pools_coherent(pools, s.memory),
        forall|j: int|
            0 <= j < scan(s.memory, s.pc as int, true).instructions.len() ==> (#[trigger] scan(
                s.memory,
                s.pc as int,
                true,
            ).instructions[j]).execute != Handler::HFx33,
        0 <= p < pools.len(),
        0 <= q < 16,
    ensures
        cached_2_spec(s, pools, randoms).1.len() == pools.len(),
        pool_slot_coherent(cached_2_spec(s, pools, randoms).1, s.memory, p, q),
        pool_slot_coherent(
            cached_2_spec(s, pools, randoms).1,
            cached_2_spec(s, pools, randoms).0.state.memory,
            p,
            q,
        ) || spills_onto(
            cached_2_spec(s, pools, randoms).1,
            p,
            q,
            reported(cached_2_spec(s, pools, randoms).0).0,
        ),
{
    let pool_here = pool_index(s.pc as int);
    let slot_here = pool_offset(s.pc as int);
    let (out, after) = cached_2_spec(s, pools, randoms);
    let pool = match pools[pool_here] {
        Some(pool) => pool,
        None => empty_pool(),
    };
    assert(pool_slot_coherent(pools, s.memory, pool_here, slot_here));
    assert(pool_slot_coherent(pools, s.memory, p, q));
    assert(0x200 + 16 * pool_here + slot_here == s.pc);
    let made = pools.update(pool_here, Some(pool));
    assert(pool_slot_coherent(made, s.memory, p, q));
    let found = match pool[slot_here] {
        Some(block) => Ok(block),
        None => build_spec(s.memory, s.pc, true),
    };
    assert(found == build_spec(s.memory, s.pc, true) || found is Err);
    if let Ok(block) = found {
        let n = block.instructions.len() as int;
        lemma_run_memory(s, block.instructions, randoms, n);
        let filled = pools.update(pool_here, Some(pool.update(slot_here, Some(block))));
        assert(pool_slot_coherent(filled, s.memory, p, q));
        let (lo, hi) = reported(out);
        if let Some(pool_there) = after[p] {
            assert(after[p] == filled[p]);
            if let Some(block_there) = pool_there[q] {
                let pc_there = (0x200 + 16 * p + q) as u16;
                let pool_end = 0x200 + 16 * (p + 1);
                assert(block_coherent(block_there, s.memory, pc_there, true));
                lemma_scan_end(s.memory, pc_there as int, true);
                lemma_pooled_block_bounds(s.memory, pc_there as int);
                assert(pool_index(pc_there as int) == p);
                assert(block_there.end_pc <= pool_end + 1);
                if !(block_there.end_pc == lo + 1 && lo == pool_end) {
                    // The pool is left, so none of its addresses was written.
                    assert forall|a: int| pc_there <= a < block_there.end_pc implies #[trigger]
                        out.state.memory[a] == s.memory[a] by {
                        if lo <= a <= hi {
                            assert(!pool_in_range(p, lo as u16, hi as u16));
                            let beg: int = if lo < 0x200 {
                                0x200
                            } else {
                                lo
                            };
                            let end: int = if hi > 0xFFF {
                                0xFFF
                            } else {
                                hi
                            };
                            // The address before the end of the pool lies in the pool.
                            let inside: int = if a < pool_end {
                                a
                            } else {
                                pool_end - 1
                            };
                            assert(pool_index(inside) == p);
                            assert(beg <= inside <= end);
                            assert(pool_index(beg) <= pool_index(inside) <= pool_index(end));
                        }
                    }
                    lemma_block_stays_coherent(s.memory, out.state.memory, pc_there, true);
                }
            }
        }
    }
}

/// Whether slot `q` of pool `p` holds no block.
pub open spec fn pool_slot_empty(
    pools: Seq<Option<Seq<Option<BlockView>>>>,
    p: int,
    q: int,
) -> bool {
    pools[p] matches Some(pool) ==> pool.len() == 16 && pool[q] is None
}

/// Whether no block of the pooled table starts at an odd address.
pub open spec fn pools_aligned(pools: Seq<Option<Seq<Option<BlockView>>>>) -> bool {
    forall|p: int, q: int|
        0 <= p < pools.len() && 0 <= q < 16 && q % 2 == 1 ==> #[trigger] pool_slot_empty(
            pools,
            p,
            q,
        )
}

/// For a program that only runs from even addresses the pooled table
/// never holds a stale block: if every block of the table is the one
/// that memory gives and none starts at an odd address, both are so
/// again after a step from an even address whose block does not store
/// decimal digits, for memory as the step left it.
pub proof fn lemma_cached_2_keeps_coherence_aligned(
    s: StateView,
    pools: Seq<Option<Seq<Option<BlockView>>>>,
    randoms: Seq<u8>,
)
    requires
        s.shaped(),
        pools.len() == 0xE0,
        has_slot(s.pc, pools),
        pool_offset(s.pc as int) % 2 == 0,
        pools_coherent(pools, s.memory),
        pools_aligned(pools),
        forall|j: int|
            0 <= j < scan(s.memory, s.pc as int, true).instructions.len() ==> (#[trigger] scan(
                s.memory,
                s.pc as int,
                true,
            ).instructions[j]).execute != Handler::HFx33,
    ensures
        pools_coherent(
            cached_2_spec(s, pools, randoms).1,
            cached_2_spec(s, pools, randoms).0.state.memory,
        ),
        pools_aligned(cached_2_spec(s, pools, randoms).1),
{
    let (out, after) = cached_2_spec(s, pools, randoms);
    assert forall|p: int, q: int| 0 <= p < after.len() && 0 <= q < 16 && q % 2 == 1 implies
        #[trigger] pool_slot_empty(after, p, q) by {
        lemma_cached_2_keeps_coherence(s, pools, randoms, p, q);
        assert(pool_slot_empty(pools, p, q));
    }
    assert forall|p: int, q: int| 0 <= p < after.len() && 0 <= q < 16 implies #[trigger]
        pool_slot_coherent(after, out.state.memory, p, q) by {
        lemma_cached_2_keeps_coherence(s, pools, randoms, p, q);
        if spills_onto(after, p, q, reported(out).0) {
            // A block that reaches into the next pool starts at an odd address.
            let pc_there = 0x200 + 16 * p + q;
            assert(q % 2 == 0) by {
                if q % 2 == 1 {
                    assert(pool_slot_empty(after, p, q));
                }
            }
            assert(pool_slot_coherent(after, s.memory, p, q));
            lemma_pooled_block_bounds(s.memory, pc_there);
            lemma_scan_end(s.memory, pc_there, true);
        }
    }
}

/// Whether slot `k` is empty or holds the block that `memory` gives at
/// its address.
pub open spec fn slot_coherent(slots: Seq<Option<BlockView>>, memory: Seq<u8>, k: int) -> bool {
    slots[k] matches Some(block) ==> block_coherent(block, memory, (k + 0x200) as u16, false)
}

/// Whether every block of the table is the one that `memory` gives at
/// its address.
pub open spec fn slots_coherent(slots: Seq<Option<BlockView>>, memory: Seq<u8>) -> bool {
    forall|k: int| 0 <= k < slots.len() ==> #[trigger] slot_coherent(slots, memory, k)
}

/// Whether `block` lies strictly between the ends of `lo..=hi`.
pub open spec fn strictly_inside(block: BlockView, lo: int, hi: int) -> bool {
    lo < block.pc && block.end_pc <= hi
}

/// After a step of the cached interpreter, a block of the table is
/// stale only if it lies strictly between the ends of the range that the
/// step has written: if every block of the table is the one that memory
/// gives, then after a step whose block does not store decimal digits
/// every block is so again, for memory as the step left it, or lies
/// strictly inside the range reported.
pub proof fn lemma_cached_keeps_coherence(
    s: StateView,
    slots: Seq<Option<BlockView>>,
    randoms: Seq<u8>,
    k: int,
)
    requires
        s.shaped(),
        slots.len() == 0xE00,
        0x200 <= s.pc < 0x1000,
        slots_coherent(slots, s.memory),
        forall|j: int|
            0 <= j < scan(s.memory, s.pc as int, false).instructions.len() ==> (#[trigger] scan(
                s.memory,
                s.pc as int,
                false,
            ).instructions[j]).execute != Handler::HFx33,
        0 <= k < slots.len(),
    ensures
        cached_spec(s, slots, randoms).1.len() == slots.len(),
        cached_spec(s, slots, randoms).1[k] matches Some(block) ==> {
            ||| block_coherent(
                block,
                cached_spec(s, slots, randoms).0.state.memory,
                (k + 0x200) as u16,
                false,
            )
            ||| strictly_inside(
                block,
                reported(cached_spec(s, slots, randoms).0).0,
                reported(cached_spec(s, slots, randoms).0).1,
            )
        },
{
    let index = s.pc - 0x200;
    let (out, after) = cached_spec(s, slots, randoms);
    assert(slot_coherent(slots, s.memory, index));
    assert(slot_coherent(slots, s.memory, k));
    let found = match slots[index] {
        Some(block) => Ok(block),
        None => build_spec(s.memory, s.pc, false),
    };
    assert(found == build_spec(s.memory, s.pc, false) || found is Err);
    if let Ok(block) = found {
        let n = block.instructions.len() as int;
        lemma_run_memory(s, block.instructions, randoms, n);
        let filled = slots.update(index, Some(block));
        assert(slot_coherent(filled, s.memory, k));
        let (lo, hi) = reported(out);
        if let Some(block_there) = after[k] {
            let pc_there = (k + 0x200) as u16;
            assert(filled[k] == Some(block_there));
            assert(block_coherent(block_there, s.memory, pc_there, false));
            lemma_scan_end(s.memory, pc_there as int, false);
            if lo <= hi {
                assert(!holds_end(block_there, lo as u16, hi as u16));
            }
            if !strictly_inside(block_there, lo, hi) {
                assert forall|a: int| pc_there <= a < block_there.end_pc implies #[trigger] out.state.memory[a]
                    == s.memory[a] by {}
                lemma_block_stays_coherent(s.memory, out.state.memory, pc_there, false);
            }
        }
    }
}

/// Whether slot `k` is empty or holds the instruction that `memory`
/// gives at its address.
pub open spec fn instruction_coherent(
    slots: Seq<Option<CachedInstruction>>,
    memory: Seq<u8>,
    k: int,
) -> bool {
    slots[k] matches Some(inst) ==> k + 0x201 < 4096 && inst == (CachedInstruction {
        opcode: fetch_spec(memory, k + 0x200),
        execute: decode_spec(fetch_spec(memory, k + 0x200)),
    })
}

/// Whether every instruction of the table is the one that `memory` gives
/// at its address.
pub open spec fn instructions_coherent(
    slots: Seq<Option<CachedInstruction>>,
    memory: Seq<u8>,
) -> bool {
    forall|k: int| 0 <= k < slots.len() ==> #[trigger] instruction_coherent(slots, memory, k)
}

/// After a step of the per-instruction cached interpreter, an
/// instruction of the table is stale only if it starts one byte before
/// the range that the step has written: if every instruction of the
/// table is the one that memory gives, then after a step that does not
/// store decimal digits every instruction is so again, for memory as the
/// step left it, or starts one byte before the range reported.
pub proof fn lemma_cached_3_keeps_coherence(
    s: StateView,
    slots: Seq<Option<CachedInstruction>>,
    random: u8,
    k: int,
)
    requires
        s.shaped(),
        slots.len() == 0xE00,
        0x200 <= s.pc < 0x1000,
        instructions_coherent(slots, s.memory),
        s.pc + 1 < 4096 ==> decode_spec(fetch_spec(s.memory, s.pc as int)) != Handler::HFx33,
        0 <= k < slots.len(),
    ensures
        cached_3_spec(s, slots, random).1.len() == slots.len(),
        instruction_coherent(
            cached_3_spec(s, slots, random).1,
            cached_3_spec(s, slots, random).0.state.memory,
            k,
        ) || k + 0x200 == reported(cached_3_spec(s, slots, random).0).0 - 1,
{
    let index = s.pc - 0x200;
    let (out, after) = cached_3_spec(s, slots, random);
    assert(instruction_coherent(slots, s.memory, index));
    assert(instruction_coherent(slots, s.memory, k));
    if s.pc + 1 < 4096 {
        let opcode = fetch_spec(s.memory, s.pc as int);
        let inst = CachedInstruction { opcode, execute: decode_spec(opcode) };
        let run = seq![inst];
        let randoms = seq![random];
        assert(run_spec(s, run, randoms, 1) == execute_at_spec(
            s,
            inst.execute,
            inst.opcode,
            random,
        )) by {
            assert(run_spec(s, run, randoms, 0) == (StepView { state: s, code: 0, fault: None, warning: None }));
        }
        assert(out == run_spec(s, run, randoms, 1));
        lemma_run_memory(s, run, randoms, 1);
        let (lo, hi) = reported(out);
        if let Some(inst_there) = after[k] {
            if k + 0x200 != lo - 1 {
                assert(out.state.memory[k + 0x200] == s.memory[k + 0x200]);
                assert(out.state.memory[k + 0x201] == s.memory[k + 0x201]);
            }
        }
    }
}

/// The instruction that a step of the per-instruction cached interpreter
/// executes: the one in the slot of `pc`, or the word in memory if the
/// slot is empty.
pub open spec fn executed_3(s: StateView, slots: Seq<Option<CachedInstruction>>) -> CachedInstruction {
    match slots[s.pc - 0x200] {
        Some(inst) => inst,
        None => CachedInstruction {
            opcode: fetch_spec(s.memory, s.pc as int),
            execute: decode_spec(fetch_spec(s.memory, s.pc as int)),
        },
    }
}

/// A store of registers succeeds on the per-instruction cached
/// interpreter wherever in memory it writes, also below `0x200` where no
/// address has a slot: the registers are stored as the instruction says,
/// the program counter moves past it, and of the table exactly the slots
/// of the addresses written are cleared.
pub proof fn lemma_cached_3_store(s: StateView, slots: Seq<Option<CachedInstruction>>, random: u8)
    requires
        s.shaped(),
        0x200 <= s.pc < 0x200 + slots.len(),
        slots[s.pc - 0x200] is None ==> s.pc + 1 < 4096,
        executed_3(s, slots).execute == Handler::HFx55,
        s.i + executed_3(s, slots).opcode.x_spec() < 0x1000,
    ensures
        cached_3_spec(s, slots, random).0.fault is None,
        cached_3_spec(s, slots, random).0.state == step_spec(
            skip_next(s),
            Handler::HFx55,
            executed_3(s, slots).opcode,
            random,
        ),
        cached_3_spec(s, slots, random).0.state.pc == s.pc.wrapping_add(2),
        cached_3_spec(s, slots, random).0.code == invalidate_code(
            s.i,
            (s.i + executed_3(s, slots).opcode.x_spec()) as u16,
        ),
        cached_3_spec(s, slots, random).1.len() == slots.len(),
        forall|k: int|
            0 <= k < slots.len() ==> #[trigger] cached_3_spec(s, slots, random).1[k] == if s.i <= k
                + 0x200 <= s.i + executed_3(s, slots).opcode.x_spec() {
                None
            } else {
                slots.update(s.pc - 0x200, Some(executed_3(s, slots)))[k]
            },
{
    reveal(execute_at_spec);
    let inst = executed_3(s, slots);
    inst.opcode.lemma_field_bounds();
    let lo = s.i;
    let hi = (s.i + inst.opcode.x_spec()) as u16;
    lemma_invalidate_code_decodes(lo, hi);
    let filled = slots.update(s.pc - 0x200, Some(inst));
    assert(slots[s.pc - 0x200] is Some ==> filled =~= slots);
    if !(lo > 0 || hi > 1) {
        // The code of a store to `0..=0` or `0..=1` asks for nothing, and
        // no slot stands for these addresses.
        assert(clear_range_spec(filled, lo, hi) =~= filled);
    }
}

/// An instruction that native code leaves to the interpreter is executed
/// as one step of the interpreter backend executes it: the return to the
/// core at the address of the instruction comes to that step, timers and
/// warning included.
pub proof fn lemma_deferred_is_interpreter_step(
    before: Chip8,
    after: Chip8,
    r: Result<Option<Risp8Answer>, Fault>,
)
    requires
        finish_post(before, after, JitExit::UseInterpreter { pc: before.state.pc }, r),
    ensures
        interpreter_post(before, after, r),
{
    assert(crate::jit::at_pc(before.state, before.state.pc) == before.state);
    assert((Chip8 { state: before.state, ..before }) == before);
}

/// What the core adds to an instruction that native code executes by
/// itself: if native code has left the machine as the handler of the
/// instruction leaves it, the program counter aside, and returns the
/// address where the handler leaves the program counter, as a jump or
/// with an invalidation, then the machine after the return to the core is
/// the one that the interpreter leaves. `native` is the core as native
/// code left it.
pub proof fn lemma_native_return_is_interpreter_state(
    s: StateView,
    native: Chip8,
    after: Chip8,
    h: Handler,
    op: crate::opcode::Opcode,
    random: u8,
    exit: JitExit,
    r: Result<Option<Risp8Answer>, Fault>,
)
    requires
        executable(s, h, op),
        native.state@ == (StateView {
            pc: native.state@.pc,
            ..execute_at_spec(s, h, op, random).state
        }),
        exit == (JitExit::Jump { pc: execute_at_spec(s, h, op, random).state.pc }) || (exit
            matches JitExit::InvalidateCache { pc, .. } && pc == execute_at_spec(
            s,
            h,
            op,
            random,
        ).state.pc),
        finish_post(native, after, exit, r),
    ensures
        after.state@ == execute_at_spec(s, h, op, random).state,
        r == Ok::<Option<Risp8Answer>, Fault>(None),
        after.warning is None,
{
}

} // verus!
