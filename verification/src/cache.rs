//! Blocks of native code and the table that holds them.

use vstd::prelude::*;
use crate::x86::{
    add_mem_imm8_bytes, le_bytes, mov_eax_mem_bytes, mov_mem_eax_bytes, mov_mem_imm8_bytes,
    mov_reg_imm32_bytes, ret_bytes, ICache, X86Emitter, X86Reg,
};

verus! {

/// A block of native code compiled from guest memory at `pc..end_pc`.
pub struct Cache {
    /// Guest address of the first instruction compiled.
    pub pc: u16,
    /// Guest address after the last instruction compiled.
    pub end_pc: u16,
    /// The native code.
    pub code: Vec<u8>,
}

impl ICache for Cache {
    open spec fn emitted(&self) -> Seq<u8> {
        self.code@
    }

    fn push_8(&mut self, d: u8)
        ensures
            final(self).pc == old(self).pc,
            final(self).end_pc == old(self).end_pc,
    {
        self.code.push(d);
    }

    fn push_32(&mut self, d: u32)
        ensures
            final(self).pc == old(self).pc,
            final(self).end_pc == old(self).end_pc,
    {
        assert(d & 0xFF < 256 && (d >> 8) & 0xFF < 256 && (d >> 16) & 0xFF < 256 && (d >> 24)
            & 0xFF < 256) by (bit_vector);
        self.code.push((d & 0xFF) as u8);
        self.code.push(((d >> 8) & 0xFF) as u8);
        self.code.push(((d >> 16) & 0xFF) as u8);
        self.code.push(((d >> 24) & 0xFF) as u8);
        assert(self.code@ =~= old(self).code@ + le_bytes(d));
    }
}

impl X86Emitter<Cache> for Cache {

}

impl Cache {
    /// An empty block at guest address `pc`.
    pub fn new(pc: u16) -> (cache: Cache)
        ensures
            cache.pc == pc,
            cache.end_pc == pc,
            cache.code@ == Seq::<u8>::empty(),
    {
        Cache { pc, end_pc: pc, code: Vec::new() }
    }

    /// Emits `add byte [addr], imm`.
    pub fn add_mem_imm8(&mut self, addr: u32, imm: u8)
        ensures
            final(self).code@ == old(self).code@ + add_mem_imm8_bytes(addr, imm),
            final(self).pc == old(self).pc,
            final(self).end_pc == old(self).end_pc,
    {
        self.push_8(0x80);
        self.push_8(0x05);
        self.push_32(addr);
        self.push_8(imm);
        assert(self.code@ =~= old(self).code@ + add_mem_imm8_bytes(addr, imm));
    }

    /// Emits `mov byte [addr], imm`.
    pub fn mov_mem_imm8(&mut self, addr: u32, imm: u8)
        ensures
            final(self).code@ == old(self).code@ + mov_mem_imm8_bytes(addr, imm),
            final(self).pc == old(self).pc,
            final(self).end_pc == old(self).end_pc,
    {
        self.push_8(0xC6);
        self.push_8(0x05);
        self.push_32(addr);
        self.push_8(imm);
        assert(self.code@ =~= old(self).code@ + mov_mem_imm8_bytes(addr, imm));
    }

    /// Emits `mov reg, value`.
    pub fn mov_reg_imm32(&mut self, reg: X86Reg, value: u32)
        ensures
            final(self).code@ == old(self).code@ + mov_reg_imm32_bytes(reg, value),
            final(self).pc == old(self).pc,
            final(self).end_pc == old(self).end_pc,
    {
        self.push_8(0xB8 + reg.number());
        self.push_32(value);
        assert(self.code@ =~= old(self).code@ + mov_reg_imm32_bytes(reg, value));
    }

    /// Emits `mov [addr], eax`.
    pub fn mov_mem_eax(&mut self, addr: u32)
        ensures
            final(self).code@ == old(self).code@ + mov_mem_eax_bytes(addr),
            final(self).pc == old(self).pc,
            final(self).end_pc == old(self).end_pc,
    {
        self.push_8(0xA3);
        self.push_32(addr);
        assert(self.code@ =~= old(self).code@ + mov_mem_eax_bytes(addr));
    }

    /// Emits `mov eax, [addr]`.
    pub fn mov_eax_mem(&mut self, addr: u32)
        ensures
            final(self).code@ == old(self).code@ + mov_eax_mem_bytes(addr),
            final(self).pc == old(self).pc,
            final(self).end_pc == old(self).end_pc,
    {
        self.push_8(0xA1);
        self.push_32(addr);
        assert(self.code@ =~= old(self).code@ + mov_eax_mem_bytes(addr));
    }

    /// Emits `mov eax, value` followed by `ret`.
    pub fn ret(&mut self, value: u32)
        ensures
            final(self).code@ == old(self).code@ + ret_bytes(value),
            final(self).pc == old(self).pc,
            final(self).end_pc == old(self).end_pc,
    {
        self.mov_reg_imm32(X86Reg::EAX, value);
        self.push_8(0xC3);
        assert(self.code@ =~= old(self).code@ + ret_bytes(value));
    }
}

/// The table of native blocks. No two blocks made by `get_or_create` or
/// `add` start at the same address.
pub struct Caches {
    pub caches: Vec<Cache>,
}

/// Position of the first block of `caches` that starts at `pc`, or the
/// length of `caches` if there is none.
pub open spec fn position_of(caches: Seq<Cache>, pc: u16) -> int
    decreases caches.len(),
{
    if caches.len() == 0 {
        0
    } else if caches[0].pc == pc {
        0
    } else {
        1 + position_of(caches.drop_first(), pc)
    }
}

/// Whether a block of `caches` starts at `pc`.
pub open spec fn has_block(caches: Seq<Cache>, pc: u16) -> bool {
    exists|k: int| 0 <= k < caches.len() && (#[trigger] caches[k]).pc == pc
}

/// Whether `cache` holds an address of `beg..=end`.
pub open spec fn in_range(cache: Cache, beg: u16, end: u16) -> bool {
    cache.pc < cache.end_pc && beg <= end && cache.pc <= end && beg < cache.end_pc
}

/// The position found is that of the first block that starts at `pc`.
pub proof fn lemma_position_of(caches: Seq<Cache>, pc: u16)
    ensures
        0 <= position_of(caches, pc) <= caches.len(),
        position_of(caches, pc) < caches.len() ==> caches[position_of(caches, pc)].pc == pc,
        forall|k: int| 0 <= k < position_of(caches, pc) ==> (#[trigger] caches[k]).pc != pc,
        position_of(caches, pc) < caches.len() <==> has_block(caches, pc),
    decreases caches.len(),
{
    if caches.len() > 0 && caches[0].pc != pc {
        let rest = caches.drop_first();
        lemma_position_of(rest, pc);
        assert forall|k: int| 0 <= k < position_of(caches, pc) implies (#[trigger] caches[k]).pc
            != pc by {
            if k > 0 {
                assert(rest[k - 1] == caches[k]);
            }
        }
        if has_block(caches, pc) {
            let k = choose|k: int| 0 <= k < caches.len() && (#[trigger] caches[k]).pc == pc;
            assert(rest[k - 1] == caches[k]);
        }
        if has_block(rest, pc) {
            let k = choose|k: int| 0 <= k < rest.len() && (#[trigger] rest[k]).pc == pc;
            assert(caches[k + 1] == rest[k]);
        }
    }
}

impl Caches {
    /// An empty table.
    pub fn new() -> (caches: Caches)
        ensures
            caches.caches@ == Seq::<Cache>::empty(),
    {
        Caches { caches: Vec::new() }
    }

    /// Position of the first block that starts at `pc`.
    pub fn find(&self, pc: u16) -> (found: Option<usize>)
        ensures
            found is Some <==> has_block(self.caches@, pc),
            found matches Some(k) ==> k == position_of(self.caches@, pc) && k < self.caches@.len(),
    {
        proof {
            lemma_position_of(self.caches@, pc);
        }
        let n = self.caches.len();
        let mut k: usize = 0;
        while k < n
            invariant
                k <= n,
                n == self.caches@.len(),
                forall|j: int| 0 <= j < k ==> (#[trigger] self.caches@[j]).pc != pc,
                0 <= position_of(self.caches@, pc) <= n,
                position_of(self.caches@, pc) < n ==> self.caches@[position_of(
                    self.caches@,
                    pc,
                )].pc == pc,
                forall|j: int|
                    0 <= j < position_of(self.caches@, pc) ==> (#[trigger] self.caches@[j]).pc
                        != pc,
                position_of(self.caches@, pc) < n <==> has_block(self.caches@, pc),
            decreases n - k,
        {
            if self.caches[k].pc == pc {
                return Some(k);
            }
            k += 1;
        }
        None
    }

    /// The first block that starts at `pc`, if there is one, to read and
    /// to write. The table changes in that block only, as the caller
    /// changes it.
    pub fn get(&mut self, pc: u16) -> (found: Option<&mut Cache>)
        ensures
            found is Some <==> has_block(old(self).caches@, pc),
            found matches Some(cache) ==> {
                &&& *cache == old(self).caches@[position_of(old(self).caches@, pc)]
                &&& final(self).caches@ == old(self).caches@.update(
                    position_of(old(self).caches@, pc),
                    *final(cache),
                )
            },
            found is None ==> final(self).caches@ == old(self).caches@,
    {
        match self.find(pc) {
            Some(k) => Some(&mut self.caches[k]),
            None => None,
        }
    }

    /// The first block that starts at `pc`, to read and to write; if
    /// there is none, an empty one is appended first. The table changes
    /// in that block only, as the caller changes it.
    pub fn get_or_create(&mut self, pc: u16) -> (cache: &mut Cache)
        ensures
            cache.pc == pc,
            has_block(old(self).caches@, pc) ==> {
                &&& *cache == old(self).caches@[position_of(old(self).caches@, pc)]
                &&& final(self).caches@ == old(self).caches@.update(
                    position_of(old(self).caches@, pc),
                    *final(cache),
                )
            },
            !has_block(old(self).caches@, pc) ==> {
                &&& cache.end_pc == pc
                &&& cache.code@ == Seq::<u8>::empty()
                &&& final(self).caches@ == old(self).caches@.push(*final(cache))
            },
    {
        proof {
            lemma_position_of(self.caches@, pc);
        }
        let k = match self.find(pc) {
            Some(k) => k,
            None => {
                self.create(pc);
                assert(self.caches@.subrange(0, self.caches@.len() - 1) =~= old(self).caches@);
                self.caches.len() - 1
            },
        };
        let ghost before = self.caches@;
        let cache = &mut self.caches[k];
        proof {
            if !has_block(old(self).caches@, pc) {
                assert(before.update(k as int, *final(cache)) =~= old(self).caches@.push(
                    *final(cache),
                ));
            }
        }
        cache
    }

    /// Appends an empty block at guest address `pc`.
    pub fn create(&mut self, pc: u16)
        ensures
            final(self).caches@.len() == old(self).caches@.len() + 1,
            final(self).caches@.subrange(0, old(self).caches@.len() as int) == old(self).caches@,
            final(self).caches@.last().pc == pc,
            final(self).caches@.last().end_pc == pc,
            final(self).caches@.last().code@ == Seq::<u8>::empty(),
    {
        self.caches.push(Cache::new(pc));
        assert(self.caches@.subrange(0, old(self).caches@.len() as int) =~= old(self).caches@);
    }

    /// Appends the block of native code `code`, compiled from guest
    /// memory at `pc..end_pc`.
    pub fn add(&mut self, pc: u16, end_pc: u16, code: Vec<u8>)
        ensures
            final(self).caches@ == old(self).caches@.push(Cache { pc, end_pc, code }),
    {
        self.caches.push(Cache { pc, end_pc, code });
    }

    /// Drops every block that holds an address of `beg_addr..=end_addr`,
    /// and keeps the others in their order.
    pub fn invalidate(&mut self, beg_addr: u16, end_addr: u16)
        ensures
            final(self).caches@ == old(self).caches@.filter(
                |cache: Cache| !in_range(cache, beg_addr, end_addr),
            ),
    {
        let ghost before = self.caches@;
        let ghost keep = |cache: Cache| !in_range(cache, beg_addr, end_addr);
        let mut rest: Vec<Cache> = Vec::new();
        core::mem::swap(&mut self.caches, &mut rest);
        let n = rest.len();
        // The blocks are reversed first, so that popping gives them in order.
        let mut reversed: Vec<Cache> = Vec::new();
        while rest.len() > 0
            invariant
                before.len() == n,
                rest@.len() + reversed@.len() == before.len(),
                forall|j: int| 0 <= j < rest@.len() ==> rest@[j] == before[j],
                forall|j: int|
                    0 <= j < reversed@.len() ==> reversed@[j] == before[before.len() - 1 - j],
            decreases rest@.len(),
        {
            let cache = rest.pop().unwrap();
            reversed.push(cache);
        }
        let mut kept: Vec<Cache> = Vec::new();
        let mut k: usize = 0;
        proof {
            assert(before.subrange(0, 0) =~= Seq::<Cache>::empty());
            reveal(Seq::filter);
        }
        while reversed.len() > 0
            invariant
                before.len() == n,
                k + reversed@.len() == before.len(),
                forall|j: int|
                    0 <= j < reversed@.len() ==> reversed@[j] == before[before.len() - 1 - j],
                kept@ == before.subrange(0, k as int).filter(keep),
                keep == |cache: Cache| !in_range(cache, beg_addr, end_addr),
            decreases reversed@.len(),
        {
            let cache = reversed.pop().unwrap();
            proof {
                assert(cache == before[k as int]);
                assert(before.subrange(0, k + 1).drop_last() =~= before.subrange(0, k as int));
                reveal(Seq::filter);
            }
            let holds = cache.pc < cache.end_pc && beg_addr <= end_addr && cache.pc <= end_addr
                && beg_addr < cache.end_pc;
            if !holds {
                kept.push(cache);
            }
            k += 1;
        }
        assert(before.subrange(0, k as int) =~= before);
        self.caches = kept;
    }
}

} // verus!
