//! The 16-bit CHIP-8 instruction word and its bit-fields.

use vstd::prelude::*;

verus! {

/// A CHIP-8 instruction word: two consecutive bytes of guest memory, high byte first.
#[derive(Debug, Clone, Copy, PartialEq, Eq, Structural)]
pub struct Opcode(pub u16);

impl Opcode {
    /// Second nibble: `(w >> 8) & 0xF`.
    pub open spec fn x_spec(self) -> usize {
        ((self.0 >> 8) & 0xF) as usize
    }

    /// Third nibble: `(w >> 4) & 0xF`.
    pub open spec fn y_spec(self) -> usize {
        ((self.0 >> 4) & 0xF) as usize
    }

    /// Lowest nibble: `w & 0xF`.
    pub open spec fn n_spec(self) -> u8 {
        (self.0 & 0xF) as u8
    }

    /// Low byte: `w & 0xFF`.
    pub open spec fn kk_spec(self) -> u8 {
        (self.0 & 0xFF) as u8
    }

    /// Low twelve bits: `w & 0xFFF`.
    pub open spec fn nnn_spec(self) -> u16 {
        self.0 & 0xFFF
    }

    /// Every field stays within the width of its bit pattern.
    pub proof fn lemma_field_bounds(self)
        ensures
            self.x_spec() < 16,
            self.y_spec() < 16,
            self.n_spec() < 16,
            self.nnn_spec() < 0x1000,
            (self.0 >> 8) & 0xF < 16,
            (self.0 >> 4) & 0xF < 16,
            self.0 & 0xF < 16,
            self.0 & 0xFF < 256,
    {
        let w = self.0;
        assert((w >> 8) & 0xF < 16 && (w >> 4) & 0xF < 16 && w & 0xF < 16 && w & 0xFF < 256 && w
            & 0xFFF < 0x1000) by (bit_vector);
    }

    /// The word is the concatenation of its four nibbles, and of its top
    /// nibble with `nnn`, and of its two top nibbles with `kk`.
    pub proof fn lemma_field_split(self)
        ensures
            self.0 as int == (self.0 >> 12) as int * 4096 + self.x_spec() as int * 256
                + self.y_spec() as int * 16 + self.n_spec() as int,
            self.0 as int == (self.0 >> 12) as int * 4096 + self.nnn_spec() as int,
            self.0 as int == (self.0 >> 12) as int * 4096 + self.x_spec() as int * 256
                + self.kk_spec() as int,
            (self.0 >> 12) < 16,
    {
        let w = self.0;
        self.lemma_field_bounds();
        assert(w == (w >> 12) * 4096 + ((w >> 8) & 0xF) * 256 + ((w >> 4) & 0xF) * 16 + (w & 0xF)
            && w == (w >> 12) * 4096 + (w & 0xFFF) && w == (w >> 12) * 4096 + ((w >> 8) & 0xF)
            * 256 + (w & 0xFF) && (w >> 12) < 16) by (bit_vector);
    }

    pub fn x(self) -> (r: usize)
        ensures
            r == self.x_spec(),
            r < 16,
    {
        proof {
            self.lemma_field_bounds();
        }
        ((self.0 >> 8) & 0xF) as usize
    }

    pub fn y(self) -> (r: usize)
        ensures
            r == self.y_spec(),
            r < 16,
    {
        proof {
            self.lemma_field_bounds();
        }
        ((self.0 >> 4) & 0xF) as usize
    }

    pub fn xy(self) -> (r: (usize, usize))
        ensures
            r == (self.x_spec(), self.y_spec()),
            r.0 < 16,
            r.1 < 16,
    {
        (self.x(), self.y())
    }

    pub fn kk(self) -> (r: u8)
        ensures
            r == self.kk_spec(),
    {
        proof {
            self.lemma_field_bounds();
        }
        (self.0 & 0xFF) as u8
    }

    pub fn xkk(self) -> (r: (usize, u8))
        ensures
            r == (self.x_spec(), self.kk_spec()),
            r.0 < 16,
    {
        (self.x(), self.kk())
    }

    pub fn n(self) -> (r: u8)
        ensures
            r == self.n_spec(),
            r < 16,
    {
        proof {
            self.lemma_field_bounds();
        }
        (self.0 & 0xF) as u8
    }

    pub fn nnn(self) -> (r: u16)
        ensures
            r == self.nnn_spec(),
            r < 0x1000,
    {
        proof {
            self.lemma_field_bounds();
        }
        self.0 & 0xFFF
    }
}

impl From<u16> for Opcode {
    fn from(opcode: u16) -> (op: Opcode) {
        Opcode(opcode)
    }
}

impl vstd::std_specs::convert::FromSpecImpl<u16> for Opcode {
    open spec fn obeys_from_spec() -> bool {
        true
    }

    open spec fn from_spec(opcode: u16) -> Opcode {
        Opcode(opcode)
    }
}

} // verus!
