//! The decoder table: the handler of every one of the 65 536 instruction
//! words, built by expanding the pattern of each instruction.

use vstd::prelude::*;
use crate::instruction::{decode_spec, Handler};
use crate::opcode::Opcode;

verus! {

/// The ASCII characters that patterns are written with: the digits `0` to
/// `9` and `A` to `F`, and the wildcard letters `k`, `n`, `x` and `y`.
pub const D0: u8 = 0x30;

pub const D1: u8 = 0x31;

pub const D2: u8 = 0x32;

pub const D3: u8 = 0x33;

pub const D4: u8 = 0x34;

pub const D5: u8 = 0x35;

pub const D6: u8 = 0x36;

pub const D7: u8 = 0x37;

pub const D8: u8 = 0x38;

pub const D9: u8 = 0x39;

pub const DA: u8 = 0x41;

pub const DB: u8 = 0x42;

pub const DC: u8 = 0x43;

pub const DD: u8 = 0x44;

pub const DE: u8 = 0x45;

pub const DF: u8 = 0x46;

pub const K: u8 = 0x6B;

pub const N: u8 = 0x6E;

pub const X: u8 = 0x78;

pub const Y: u8 = 0x79;

/// Whether `c` is a literal nibble of a pattern: an upper-case hexadecimal digit.
pub open spec fn is_literal(c: u8) -> bool {
    (0x30 <= c <= 0x39) || (0x41 <= c <= 0x46)
}

/// Whether `c` is a wildcard of a pattern: any character after `F`.
pub open spec fn is_wildcard(c: u8) -> bool {
    c > 0x46
}

/// The nibble that the hexadecimal digit `c` stands for.
pub open spec fn digit_value(c: u8) -> int {
    if c <= 0x39 {
        c - 0x30
    } else {
        c - 0x37
    }
}

/// Whether nibble `nibble` fits character `c` of a pattern.
pub open spec fn nibble_matches(c: u8, nibble: int) -> bool {
    is_wildcard(c) || digit_value(c) == nibble
}

/// Nibble `k` of word `w`, nibble 0 being the highest.
pub open spec fn nibble(w: int, k: int) -> int {
    if k == 0 {
        w / 4096
    } else if k == 1 {
        (w / 256) % 16
    } else if k == 2 {
        (w / 16) % 16
    } else {
        w % 16
    }
}

/// Whether `format` is a pattern: four characters, each a literal or a wildcard.
pub open spec fn is_format(format: Seq<u8>) -> bool {
    &&& format.len() == 4
    &&& forall|k: int| 0 <= k < 4 ==> is_literal(#[trigger] format[k]) || is_wildcard(format[k])
}

/// Whether word `w` fits pattern `format`.
pub open spec fn format_matches(format: Seq<u8>, w: int) -> bool {
    &&& nibble_matches(format[0], nibble(w, 0))
    &&& nibble_matches(format[1], nibble(w, 1))
    &&& nibble_matches(format[2], nibble(w, 2))
    &&& nibble_matches(format[3], nibble(w, 3))
}

/// Number of wildcards among the characters of `format` from `from` on.
pub open spec fn wildcards(format: Seq<u8>, from: int) -> nat
    decreases 4 - from,
{
    if from < 0 || from >= 4 {
        0
    } else {
        (if is_wildcard(format[from]) {
            1nat
        } else {
            0nat
        }) + wildcards(format, from + 1)
    }
}

impl Handler {
    /// The pattern of the handler's instruction: upper-case hexadecimal
    /// digits are literal nibbles, lower-case letters are wildcards.
    pub open spec fn format_spec(self) -> Seq<u8> {
        match self {
            Handler::H00E0 => seq![D0, D0, DE, D0],
            Handler::H00EE => seq![D0, D0, DE, DE],
            Handler::H1nnn => seq![D1, N, N, N],
            Handler::H2nnn => seq![D2, N, N, N],
            Handler::H3xkk => seq![D3, X, K, K],
            Handler::H4xkk => seq![D4, X, K, K],
            Handler::H5xy0 => seq![D5, X, Y, D0],
            Handler::H6xkk => seq![D6, X, K, K],
            Handler::H7xkk => seq![D7, X, K, K],
            Handler::H8xy0 => seq![D8, X, Y, D0],
            Handler::H8xy1 => seq![D8, X, Y, D1],
            Handler::H8xy2 => seq![D8, X, Y, D2],
            Handler::H8xy3 => seq![D8, X, Y, D3],
            Handler::H8xy4 => seq![D8, X, Y, D4],
            Handler::H8xy5 => seq![D8, X, Y, D5],
            Handler::H8xy6 => seq![D8, X, Y, D6],
            Handler::H8xy7 => seq![D8, X, Y, D7],
            Handler::H8xyE => seq![D8, X, Y, DE],
            Handler::H9xy0 => seq![D9, X, Y, D0],
            Handler::HAnnn => seq![DA, N, N, N],
            Handler::HBnnn => seq![DB, N, N, N],
            Handler::HCxkk => seq![DC, X, K, K],
            Handler::HDxyn => seq![DD, X, Y, N],
            Handler::HEx9E => seq![DE, X, D9, DE],
            Handler::HExA1 => seq![DE, X, DA, D1],
            Handler::HFx07 => seq![DF, X, D0, D7],
            Handler::HFx0A => seq![DF, X, D0, DA],
            Handler::HFx15 => seq![DF, X, D1, D5],
            Handler::HFx18 => seq![DF, X, D1, D8],
            Handler::HFx1E => seq![DF, X, D1, DE],
            Handler::HFx29 => seq![DF, X, D2, D9],
            Handler::HFx33 => seq![DF, X, D3, D3],
            Handler::HFx55 => seq![DF, X, D5, D5],
            Handler::HFx65 => seq![DF, X, D6, D5],
            Handler::Invalid => seq![X, X, X, X],
        }
    }

    /// The pattern of the handler's instruction, as ASCII characters.
    pub fn format(self) -> (format: [u8; 4])
        ensures
            format@ == self.format_spec(),
    {
        let format: [u8; 4] = match self {
            Handler::H00E0 => [D0, D0, DE, D0],
            Handler::H00EE => [D0, D0, DE, DE],
            Handler::H1nnn => [D1, N, N, N],
            Handler::H2nnn => [D2, N, N, N],
            Handler::H3xkk => [D3, X, K, K],
            Handler::H4xkk => [D4, X, K, K],
            Handler::H5xy0 => [D5, X, Y, D0],
            Handler::H6xkk => [D6, X, K, K],
            Handler::H7xkk => [D7, X, K, K],
            Handler::H8xy0 => [D8, X, Y, D0],
            Handler::H8xy1 => [D8, X, Y, D1],
            Handler::H8xy2 => [D8, X, Y, D2],
            Handler::H8xy3 => [D8, X, Y, D3],
            Handler::H8xy4 => [D8, X, Y, D4],
            Handler::H8xy5 => [D8, X, Y, D5],
            Handler::H8xy6 => [D8, X, Y, D6],
            Handler::H8xy7 => [D8, X, Y, D7],
            Handler::H8xyE => [D8, X, Y, DE],
            Handler::H9xy0 => [D9, X, Y, D0],
            Handler::HAnnn => [DA, N, N, N],
            Handler::HBnnn => [DB, N, N, N],
            Handler::HCxkk => [DC, X, K, K],
            Handler::HDxyn => [DD, X, Y, N],
            Handler::HEx9E => [DE, X, D9, DE],
            Handler::HExA1 => [DE, X, DA, D1],
            Handler::HFx07 => [DF, X, D0, D7],
            Handler::HFx0A => [DF, X, D0, DA],
            Handler::HFx15 => [DF, X, D1, D5],
            Handler::HFx18 => [DF, X, D1, D8],
            Handler::HFx1E => [DF, X, D1, DE],
            Handler::HFx29 => [DF, X, D2, D9],
            Handler::HFx33 => [DF, X, D3, D3],
            Handler::HFx55 => [DF, X, D5, D5],
            Handler::HFx65 => [DF, X, D6, D5],
            Handler::Invalid => [X, X, X, X],
        };
        assert(format@ =~= self.format_spec());
        format
    }
}

/// The handlers of the 34 instructions.
pub const INSTRUCTION_FORMATS: [Handler; 34] = [
    Handler::H00E0,
    Handler::H00EE,
    Handler::H1nnn,
    Handler::H2nnn,
    Handler::H3xkk,
    Handler::H4xkk,
    Handler::H5xy0,
    Handler::H6xkk,
    Handler::H7xkk,
    Handler::H8xy0,
    Handler::H8xy1,
    Handler::H8xy2,
    Handler::H8xy3,
    Handler::H8xy4,
    Handler::H8xy5,
    Handler::H8xy6,
    Handler::H8xy7,
    Handler::H8xyE,
    Handler::H9xy0,
    Handler::HAnnn,
    Handler::HBnnn,
    Handler::HCxkk,
    Handler::HDxyn,
    Handler::HEx9E,
    Handler::HExA1,
    Handler::HFx07,
    Handler::HFx0A,
    Handler::HFx15,
    Handler::HFx18,
    Handler::HFx1E,
    Handler::HFx29,
    Handler::HFx33,
    Handler::HFx55,
    Handler::HFx65,
];

/// A word selects a handler exactly if it fits the handler's pattern.
pub proof fn lemma_decode_by_format(w: u16, h: Handler)
    requires
        h != Handler::Invalid,
    ensures
        is_format(h.format_spec()),
        format_matches(h.format_spec(), w as int) <==> decode_spec(Opcode(w)) == h,
{
    let f = h.format_spec();
    assert(is_literal(f[0]) || is_wildcard(f[0]));
    assert(is_literal(f[1]) || is_wildcard(f[1]));
    assert(is_literal(f[2]) || is_wildcard(f[2]));
    assert(is_literal(f[3]) || is_wildcard(f[3]));
}

/// Whether `lut` is the decoder table: entry `w` is the handler of word `w`.
pub open spec fn decoder_table(lut: Seq<Handler>) -> bool {
    &&& lut.len() == 65536
    &&& forall|w: int| 0 <= w < 65536 ==> lut[w] == decode_spec(Opcode(w as u16))
}

/// A word is the sum of its nibbles, each weighted by its place.
pub proof fn lemma_nibbles(w: int)
    requires
        0 <= w < 65536,
    ensures
        w == nibble(w, 0) * 4096 + nibble(w, 1) * 256 + nibble(w, 2) * 16 + nibble(w, 3),
        0 <= nibble(w, 0) < 16,
        0 <= nibble(w, 1) < 16,
        0 <= nibble(w, 2) < 16,
        0 <= nibble(w, 3) < 16,
{
    let a = w / 16;
    let b = a / 16;
    let c = b / 16;
    assert(w == a * 16 + w % 16);
    assert(a == b * 16 + a % 16);
    assert(b == c * 16 + b % 16);
    assert(b == w / 256);
    assert(c == w / 4096);
}

/// A word fits a pattern without wildcards exactly if it is the word
/// that the four digits spell.
pub proof fn lemma_literal_format(format: Seq<u8>, w: int)
    requires
        format.len() == 4,
        is_literal(format[0]),
        is_literal(format[1]),
        is_literal(format[2]),
        is_literal(format[3]),
        0 <= w < 65536,
    ensures
        format_matches(format, w) <==> w == digit_value(format[0]) * 4096 + digit_value(
            format[1],
        ) * 256 + digit_value(format[2]) * 16 + digit_value(format[3]),
{
    lemma_nibbles(w);
}

/// The word that four hexadecimal digits spell.
pub fn slice_to_usize(bytes: &[u8; 4]) -> (index: usize)
    requires
        forall|k: int| 0 <= k < 4 ==> is_literal(#[trigger] bytes@[k]),
    ensures
        index == digit_value(bytes@[0]) * 4096 + digit_value(bytes@[1]) * 256 + digit_value(
            bytes@[2],
        ) * 16 + digit_value(bytes@[3]),
        index < 65536,
        forall|w: int| 0 <= w < 65536 ==> (format_matches(bytes@, w) <==> w == index),
{
    assert(is_literal(bytes@[0]) && is_literal(bytes@[1]) && is_literal(bytes@[2]) && is_literal(
        bytes@[3],
    ));
    let b0 = hex_digit(bytes[0]);
    let b1 = hex_digit(bytes[1]);
    let b2 = hex_digit(bytes[2]);
    let b3 = hex_digit(bytes[3]);
    let index = b0 * 4096 + b1 * 256 + b2 * 16 + b3;
    proof {
        assert forall|w: int| 0 <= w < 65536 implies (format_matches(bytes@, w) <==> w
            == index) by {
            lemma_literal_format(bytes@, w);
        }
    }
    index
}

/// The nibble that an upper-case hexadecimal digit stands for.
pub fn hex_digit(c: u8) -> (value: usize)
    requires
        is_literal(c),
    ensures
        value == digit_value(c),
        value < 16,
{
    if c <= 0x39 {
        (c - 0x30) as usize
    } else {
        (c - 0x37) as usize
    }
}

/// A copy of the four characters of a pattern.
pub fn slice_to_array(bytes: &[u8; 4]) -> (copy: [u8; 4])
    ensures
        copy@ == bytes@,
{
    let copy = [bytes[0], bytes[1], bytes[2], bytes[3]];
    assert(copy@ =~= bytes@);
    copy
}

/// Writes `execute` into every entry of `lut` whose word fits `format`,
/// by replacing the first wildcard with each of the 16 digits in turn.
pub fn generate_opcodes(format: &[u8; 4], execute: Handler, lut: &mut Vec<Handler>)
    requires
        is_format(format@),
        old(lut)@.len() == 65536,
    ensures
        final(lut)@.len() == 65536,
        forall|w: int|
            0 <= w < 65536 ==> #[trigger] final(lut)@[w] == if format_matches(format@, w) {
                execute
            } else {
                old(lut)@[w]
            },
    decreases wildcards(format@, 0),
{
    assert(is_literal(format@[0]) || is_wildcard(format@[0]));
    assert(is_literal(format@[1]) || is_wildcard(format@[1]));
    assert(is_literal(format@[2]) || is_wildcard(format@[2]));
    assert(is_literal(format@[3]) || is_wildcard(format@[3]));
    let mut i: usize = 0;
    while i < 4 && format[i] <= 0x46
        invariant
            i <= 4,
            forall|k: int| 0 <= k < i ==> is_literal(#[trigger] format@[k]),
            is_format(format@),
        decreases 4 - i,
    {
        assert(is_literal(format@[i as int]) || is_wildcard(format@[i as int]));
        i += 1;
    }
    if i == 4 {
        let index = slice_to_usize(format);
        lut.set(index, execute);
    } else {
        proof {
            reveal_with_fuel(wildcards, 5);
        }
        let mut fmt = slice_to_array(format);
        let mut j: u8 = 0;
        while j < 16
            invariant
                j <= 16,
                i < 4,
                is_format(format@),
                is_wildcard(format@[i as int]),
                fmt@.len() == 4,
                forall|k: int| 0 <= k < 4 && k != i ==> fmt@[k] == format@[k],
                lut@.len() == 65536,
                forall|w: int|
                    0 <= w < 65536 ==> #[trigger] lut@[w] == if format_matches(format@, w)
                        && nibble(w, i as int) < j {
                        execute
                    } else {
                        old(lut)@[w]
                    },
            decreases 16 - j,
        {
            let c: u8 = if j > 9 {
                j + 0x37
            } else {
                j + 0x30
            };
            fmt[i] = c;
            let ghost before = lut@;
            proof {
                reveal_with_fuel(wildcards, 5);
                assert(is_literal(c));
                assert(digit_value(c) == j);
                assert forall|k: int| 0 <= k < 4 implies is_literal(#[trigger] fmt@[k])
                    || is_wildcard(fmt@[k]) by {
                    if k != i {
                        assert(is_literal(format@[k]) || is_wildcard(format@[k]));
                    }
                }
                assert(wildcards(fmt@, 0) < wildcards(format@, 0));
            }
            generate_opcodes(&fmt, execute, lut);
            proof {
                assert forall|w: int| 0 <= w < 65536 implies #[trigger] lut@[w] == if format_matches(
                    format@,
                    w,
                ) && nibble(w, i as int) < j + 1 {
                    execute
                } else {
                    old(lut)@[w]
                } by {
                    assert(format_matches(fmt@, w) == (format_matches(format@, w) && nibble(
                        w,
                        i as int,
                    ) == j));
                    assert(lut@[w] == if format_matches(fmt@, w) {
                        execute
                    } else {
                        before[w]
                    });
                }
            }
            j += 1;
        }
        proof {
            assert forall|w: int| 0 <= w < 65536 implies nibble(w, i as int) < 16 by {}
        }
    }
}

/// Builds the decoder table: every entry starts as `Invalid`, then the
/// pattern of each of the 34 instructions is expanded into it.
pub fn generate_decoder() -> (lut: Vec<Handler>)
    ensures
        decoder_table(lut@),
{
    let mut lut: Vec<Handler> = Vec::with_capacity(65536);
    let mut w: u32 = 0;
    while w < 65536
        invariant
            w <= 65536,
            lut@.len() == w,
            forall|k: int| 0 <= k < w ==> lut@[k] == Handler::Invalid,
        decreases 65536 - w,
    {
        lut.push(Handler::Invalid);
        w += 1;
    }
    let mut i: usize = 0;
    while i < 34
        invariant
            i <= 34,
            lut@.len() == 65536,
            forall|w: int|
                0 <= w < 65536 ==> #[trigger] lut@[w] == if exists|k: int|
                    0 <= k < i && INSTRUCTION_FORMATS@[k] == decode_spec(Opcode(w as u16)) {
                    decode_spec(Opcode(w as u16))
                } else {
                    Handler::Invalid
                },
        decreases 34 - i,
    {
        let execute = INSTRUCTION_FORMATS[i];
        let format = execute.format();
        let ghost before = lut@;
        proof {
            assert(execute != Handler::Invalid);
            lemma_decode_by_format(0, execute);
        }
        generate_opcodes(&format, execute, &mut lut);
        proof {
            assert forall|w: int| 0 <= w < 65536 implies #[trigger] lut@[w] == if exists|k: int|
                0 <= k < i + 1 && INSTRUCTION_FORMATS@[k] == decode_spec(Opcode(w as u16)) {
                decode_spec(Opcode(w as u16))
            } else {
                Handler::Invalid
            } by {
                lemma_decode_by_format(w as u16, execute);
                let h = decode_spec(Opcode(w as u16));
                if h == execute {
                    assert(INSTRUCTION_FORMATS@[i as int] == h);
                } else {
                    assert(lut@[w] == before[w]);
                    if exists|k: int| 0 <= k < i + 1 && INSTRUCTION_FORMATS@[k] == h {
                        let k = choose|k: int| 0 <= k < i + 1 && INSTRUCTION_FORMATS@[k] == h;
                        assert(k < i);
                    }
                }
            }
        }
        i += 1;
    }
    proof {
        assert forall|w: int| 0 <= w < 65536 implies lut@[w] == decode_spec(Opcode(w as u16)) by {
            let h = decode_spec(Opcode(w as u16));
            if h != Handler::Invalid {
                lemma_all_handlers_listed(h);
            }
        }
    }
    lut
}

/// Every handler but `Invalid` is among the 34 listed.
pub proof fn lemma_all_handlers_listed(h: Handler)
    requires
        h != Handler::Invalid,
    ensures
        exists|k: int| 0 <= k < 34 && INSTRUCTION_FORMATS@[k] == h,
{
    let k: int = match h {
        Handler::H00E0 => 0,
        Handler::H00EE => 1,
        Handler::H1nnn => 2,
        Handler::H2nnn => 3,
        Handler::H3xkk => 4,
        Handler::H4xkk => 5,
        Handler::H5xy0 => 6,
        Handler::H6xkk => 7,
        Handler::H7xkk => 8,
        Handler::H8xy0 => 9,
        Handler::H8xy1 => 10,
        Handler::H8xy2 => 11,
        Handler::H8xy3 => 12,
        Handler::H8xy4 => 13,
        Handler::H8xy5 => 14,
        Handler::H8xy6 => 15,
        Handler::H8xy7 => 16,
        Handler::H8xyE => 17,
        Handler::H9xy0 => 18,
        Handler::HAnnn => 19,
        Handler::HBnnn => 20,
        Handler::HCxkk => 21,
        Handler::HDxyn => 22,
        Handler::HEx9E => 23,
        Handler::HExA1 => 24,
        Handler::HFx07 => 25,
        Handler::HFx0A => 26,
        Handler::HFx15 => 27,
        Handler::HFx18 => 28,
        Handler::HFx1E => 29,
        Handler::HFx29 => 30,
        Handler::HFx33 => 31,
        Handler::HFx55 => 32,
        Handler::HFx65 => 33,
        Handler::Invalid => 0,
    };
    assert(INSTRUCTION_FORMATS@[k] == h);
}

/// The decoder table, built once and never changed.
pub struct Decoder {
    lut: Vec<Handler>,
}

impl Decoder {
    #[verifier::type_invariant]
    spec fn is_table(&self) -> bool {
        decoder_table(self.lut@)
    }

    /// The entries of the table.
    pub closed spec fn view(&self) -> Seq<Handler> {
        self.lut@
    }

    /// Builds the decoder table.
    pub fn new() -> (decoder: Decoder)
        ensures
            decoder_table(decoder@),
    {
        Decoder { lut: generate_decoder() }
    }

    /// The handler of an instruction word, by one look in the table.
    pub fn lookup(&self, opcode: Opcode) -> (h: Handler)
        ensures
            h == decode_spec(opcode),
    {
        proof {
            use_type_invariant(self);
        }
        self.lut[opcode.0 as usize]
    }
}

} // verus!
