//! A small x86 emitter: each method appends the encoding of one
//! instruction to a code buffer.

use vstd::prelude::*;

verus! {

/// The eight 32-bit general registers, in encoding order.
#[derive(Clone, Copy, Debug, PartialEq, Eq, Structural)]
pub enum X86Reg {
    EAX,
    ECX,
    EDX,
    EBX,
    ESP,
    EBP,
    ESI,
    EDI,
}

impl X86Reg {
    /// The number of the register in instruction encodings.
    pub open spec fn number_spec(self) -> u8 {
        match self {
            X86Reg::EAX => 0,
            X86Reg::ECX => 1,
            X86Reg::EDX => 2,
            X86Reg::EBX => 3,
            X86Reg::ESP => 4,
            X86Reg::EBP => 5,
            X86Reg::ESI => 6,
            X86Reg::EDI => 7,
        }
    }

    /// The number of the register in instruction encodings.
    pub fn number(self) -> (n: u8)
        ensures
            n == self.number_spec(),
            n < 8,
    {
        match self {
            X86Reg::EAX => 0,
            X86Reg::ECX => 1,
            X86Reg::EDX => 2,
            X86Reg::EBX => 3,
            X86Reg::ESP => 4,
            X86Reg::EBP => 5,
            X86Reg::ESI => 6,
            X86Reg::EDI => 7,
        }
    }
}

/// The four bytes of `d`, least significant first.
pub open spec fn le_bytes(d: u32) -> Seq<u8> {
    seq![
        (d & 0xFF) as u8,
        ((d >> 8) & 0xFF) as u8,
        ((d >> 16) & 0xFF) as u8,
        ((d >> 24) & 0xFF) as u8,
    ]
}

/// Encoding of `add byte [addr], imm`.
pub open spec fn add_mem_imm8_bytes(addr: u32, imm: u8) -> Seq<u8> {
    seq![0x80u8, 0x05u8] + le_bytes(addr) + seq![imm]
}

/// Encoding of `mov byte [addr], imm`.
pub open spec fn mov_mem_imm8_bytes(addr: u32, imm: u8) -> Seq<u8> {
    seq![0xC6u8, 0x05u8] + le_bytes(addr) + seq![imm]
}

/// Encoding of `mov reg, value`.
pub open spec fn mov_reg_imm32_bytes(reg: X86Reg, value: u32) -> Seq<u8> {
    seq![(0xB8 + reg.number_spec()) as u8] + le_bytes(value)
}

/// Encoding of `mov [addr], eax`.
pub open spec fn mov_mem_eax_bytes(addr: u32) -> Seq<u8> {
    seq![0xA3u8] + le_bytes(addr)
}

/// Encoding of `mov eax, [addr]`.
pub open spec fn mov_eax_mem_bytes(addr: u32) -> Seq<u8> {
    seq![0xA1u8] + le_bytes(addr)
}

/// Encoding of `mov eax, value` followed by `ret`.
pub open spec fn ret_bytes(value: u32) -> Seq<u8> {
    mov_reg_imm32_bytes(X86Reg::EAX, value) + seq![0xC3u8]
}

/// A buffer of machine code that bytes can be appended to.
pub trait ICache {
    /// The bytes in the buffer.
    spec fn emitted(&self) -> Seq<u8>;

    /// Appends one byte.
    fn push_8(&mut self, d: u8)
        ensures
            final(self).emitted() == old(self).emitted().push(d),
    ;

    /// Appends four bytes, least significant first.
    fn push_32(&mut self, d: u32)
        ensures
            final(self).emitted() == old(self).emitted() + le_bytes(d),
    ;
}

/// The instructions that can be emitted into a code buffer.
pub trait X86Emitter<T: ICache>: ICache {
    /// Emits `add byte [addr], imm`.
    fn add_mem_imm8(&mut self, addr: u32, imm: u8)
        ensures
            final(self).emitted() == old(self).emitted() + add_mem_imm8_bytes(addr, imm),
    {
        self.push_8(0x80);
        self.push_8(0x05);
        self.push_32(addr);
        self.push_8(imm);
        assert(self.emitted() =~= old(self).emitted() + add_mem_imm8_bytes(addr, imm));
    }

    /// Emits `mov byte [addr], imm`.
    fn mov_mem_imm8(&mut self, addr: u32, imm: u8)
        ensures
            final(self).emitted() == old(self).emitted() + mov_mem_imm8_bytes(addr, imm),
    {
        self.push_8(0xC6);
        self.push_8(0x05);
        self.push_32(addr);
        self.push_8(imm);
        assert(self.emitted() =~= old(self).emitted() + mov_mem_imm8_bytes(addr, imm));
    }

    /// Emits `mov reg, value`.
    fn mov_reg_imm32(&mut self, reg: X86Reg, value: u32)
        ensures
            final(self).emitted() == old(self).emitted() + mov_reg_imm32_bytes(reg, value),
    {
        self.push_8(0xB8 + reg.number());
        self.push_32(value);
        assert(self.emitted() =~= old(self).emitted() + mov_reg_imm32_bytes(reg, value));
    }

    /// Emits `mov [addr], eax`.
    fn mov_mem_eax(&mut self, addr: u32)
        ensures
            final(self).emitted() == old(self).emitted() + mov_mem_eax_bytes(addr),
    {
        self.push_8(0xA3);
        self.push_32(addr);
        assert(self.emitted() =~= old(self).emitted() + mov_mem_eax_bytes(addr));
    }

    /// Emits `mov eax, [addr]`.
    fn mov_eax_mem(&mut self, addr: u32)
        ensures
            final(self).emitted() == old(self).emitted() + mov_eax_mem_bytes(addr),
    {
        self.push_8(0xA1);
        self.push_32(addr);
        assert(self.emitted() =~= old(self).emitted() + mov_eax_mem_bytes(addr));
    }

    /// Emits `mov eax, value` followed by `ret`.
    fn ret(&mut self, value: u32)
        ensures
            final(self).emitted() == old(self).emitted() + ret_bytes(value),
    {
        self.mov_reg_imm32(X86Reg::EAX, value);
        self.push_8(0xC3);
        assert(self.emitted() =~= old(self).emitted() + ret_bytes(value));
    }
}

} // verus!
