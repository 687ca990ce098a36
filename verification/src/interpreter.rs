//! The instruction handlers: each executes one instruction on a [`State`]
//! and returns its control code.

use vstd::prelude::*;
use crate::instruction::{
    code_spec, decode_spec, ends_block, executable, execute_at_spec, fault_spec, fetch_spec,
    interpreter_spec, lemma_warning_ends_block, load_registers, stack_warning_spec, step_result,
    step_spec, store_registers, Fault, Handler, StackWarning,
};
use crate::chip8::{core_result, handle_timers, Chip8, Risp8Answer};
use crate::decoder::Decoder;
use crate::opcode::Opcode;
use crate::random::gen_range;
use crate::state::{State, StateView};

verus! {

#[allow(non_snake_case)]
impl State {
    /// 00E0: clears the screen.
    pub fn execute_00E0(&mut self, opcode: Opcode) -> (code: u32)
        ensures
            final(self)@ == step_spec(old(self)@, Handler::H00E0, opcode, 0),
            code == code_spec(old(self)@, Handler::H00E0, opcode),
    {
        self.clear_screen();
        0
    }

    /// 00EE: returns from a subroutine; with an empty stack nothing changes.
    pub fn execute_00EE(&mut self, opcode: Opcode) -> (code: u32)
        requires
            executable(old(self)@, Handler::H00EE, opcode),
        ensures
            final(self)@ == step_spec(old(self)@, Handler::H00EE, opcode, 0),
            code == code_spec(old(self)@, Handler::H00EE, opcode),
    {
        if self.sp > 0 {
            self.sp -= 1;
            self.pc = self.stack[self.sp];
        }
        assert(self@ =~~= step_spec(old(self)@, Handler::H00EE, opcode, 0));
        1
    }

    /// 1nnn: jumps to `nnn`.
    pub fn execute_1nnn(&mut self, opcode: Opcode) -> (code: u32)
        ensures
            final(self)@ == step_spec(old(self)@, Handler::H1nnn, opcode, 0),
            code == code_spec(old(self)@, Handler::H1nnn, opcode),
    {
        self.pc = opcode.nnn();
        1
    }

    /// 2nnn: calls the subroutine at `nnn`; with a full stack nothing changes.
    pub fn execute_2nnn(&mut self, opcode: Opcode) -> (code: u32)
        ensures
            final(self)@ == step_spec(old(self)@, Handler::H2nnn, opcode, 0),
            code == code_spec(old(self)@, Handler::H2nnn, opcode),
    {
        if self.sp < 0xF {
            self.stack[self.sp] = self.pc;
            self.sp += 1;
            self.pc = opcode.nnn();
        }
        assert(self@ =~~= step_spec(old(self)@, Handler::H2nnn, opcode, 0));
        1
    }

    /// 3xkk: skips the next instruction if register `x` equals `kk`.
    pub fn execute_3xkk(&mut self, opcode: Opcode) -> (code: u32)
        ensures
            final(self)@ == step_spec(old(self)@, Handler::H3xkk, opcode, 0),
            code == code_spec(old(self)@, Handler::H3xkk, opcode),
    {
        let (x, kk) = opcode.xkk();
        if self.v[x] == kk {
            self.pc = self.pc.wrapping_add(2);
            1
        } else {
            0
        }
    }

    /// 4xkk: skips the next instruction if register `x` differs from `kk`.
    pub fn execute_4xkk(&mut self, opcode: Opcode) -> (code: u32)
        ensures
            final(self)@ == step_spec(old(self)@, Handler::H4xkk, opcode, 0),
            code == code_spec(old(self)@, Handler::H4xkk, opcode),
    {
        let (x, kk) = opcode.xkk();
        if self.v[x] != kk {
            self.pc = self.pc.wrapping_add(2);
            1
        } else {
            0
        }
    }

    /// 5xy0: skips the next instruction if registers `x` and `y` are equal.
    pub fn execute_5xy0(&mut self, opcode: Opcode) -> (code: u32)
        ensures
            final(self)@ == step_spec(old(self)@, Handler::H5xy0, opcode, 0),
            code == code_spec(old(self)@, Handler::H5xy0, opcode),
    {
        let (x, y) = opcode.xy();
        if self.v[x] == self.v[y] {
            self.pc = self.pc.wrapping_add(2);
            1
        } else {
            0
        }
    }

    /// 6xkk: sets register `x` to `kk`.
    pub fn execute_6xkk(&mut self, opcode: Opcode) -> (code: u32)
        ensures
            final(self)@ == step_spec(old(self)@, Handler::H6xkk, opcode, 0),
            code == code_spec(old(self)@, Handler::H6xkk, opcode),
    {
        let (x, kk) = opcode.xkk();
        self.v[x] = kk;
        0
    }

    /// 7xkk: adds `kk` to register `x`, wrapping.
    pub fn execute_7xkk(&mut self, opcode: Opcode) -> (code: u32)
        ensures
            final(self)@ == step_spec(old(self)@, Handler::H7xkk, opcode, 0),
            code == code_spec(old(self)@, Handler::H7xkk, opcode),
    {
        let (x, kk) = opcode.xkk();
        self.v[x] = self.v[x].wrapping_add(kk);
        0
    }

    /// 8xy0: copies register `y` into register `x`.
    pub fn execute_8xy0(&mut self, opcode: Opcode) -> (code: u32)
        ensures
            final(self)@ == step_spec(old(self)@, Handler::H8xy0, opcode, 0),
            code == code_spec(old(self)@, Handler::H8xy0, opcode),
    {
        let (x, y) = opcode.xy();
        self.v[x] = self.v[y];
        0
    }

    /// 8xy1: ORs register `y` into register `x`.
    pub fn execute_8xy1(&mut self, opcode: Opcode) -> (code: u32)
        ensures
            final(self)@ == step_spec(old(self)@, Handler::H8xy1, opcode, 0),
            code == code_spec(old(self)@, Handler::H8xy1, opcode),
    {
        let (x, y) = opcode.xy();
        self.v[x] = self.v[x] | self.v[y];
        0
    }

    /// 8xy2: ANDs register `y` into register `x`.
    pub fn execute_8xy2(&mut self, opcode: Opcode) -> (code: u32)
        ensures
            final(self)@ == step_spec(old(self)@, Handler::H8xy2, opcode, 0),
            code == code_spec(old(self)@, Handler::H8xy2, opcode),
    {
        let (x, y) = opcode.xy();
        self.v[x] = self.v[x] & self.v[y];
        0
    }

    /// 8xy3: XORs register `y` into register `x`.
    pub fn execute_8xy3(&mut self, opcode: Opcode) -> (code: u32)
        ensures
            final(self)@ == step_spec(old(self)@, Handler::H8xy3, opcode, 0),
            code == code_spec(old(self)@, Handler::H8xy3, opcode),
    {
        let (x, y) = opcode.xy();
        self.v[x] = self.v[x] ^ self.v[y];
        0
    }

    /// 8xy4: adds register `y` to register `x`; the flag is the carry.
    pub fn execute_8xy4(&mut self, opcode: Opcode) -> (code: u32)
        ensures
            final(self)@ == step_spec(old(self)@, Handler::H8xy4, opcode, 0),
            code == code_spec(old(self)@, Handler::H8xy4, opcode),
    {
        let (x, y) = opcode.xy();
        let vx = self.v[x];
        let vy = self.v[y];
        self.v[x] = vx.wrapping_add(vy);
        self.v[0xF] = if vy > 255 - vx {
            1
        } else {
            0
        };
        0
    }

    /// 8xy5: subtracts register `y` from register `x`; the flag is 1 when
    /// there is no borrow.
    pub fn execute_8xy5(&mut self, opcode: Opcode) -> (code: u32)
        ensures
            final(self)@ == step_spec(old(self)@, Handler::H8xy5, opcode, 0),
            code == code_spec(old(self)@, Handler::H8xy5, opcode),
    {
        let (x, y) = opcode.xy();
        let vx = self.v[x];
        let vy = self.v[y];
        self.v[x] = vx.wrapping_sub(vy);
        self.v[0xF] = if vx >= vy {
            1
        } else {
            0
        };
        0
    }

    /// 8xy6: shifts register `x` right by one; the flag is the bit shifted out.
    pub fn execute_8xy6(&mut self, opcode: Opcode) -> (code: u32)
        ensures
            final(self)@ == step_spec(old(self)@, Handler::H8xy6, opcode, 0),
            code == code_spec(old(self)@, Handler::H8xy6, opcode),
    {
        let x = opcode.x();
        let vx = self.v[x];
        let c = vx & 1;
        assert(vx >> 1 == vx / 2 && vx & 1 == vx % 2) by (bit_vector);
        self.v[x] = vx >> 1;
        self.v[0xF] = c;
        0
    }

    /// 8xy7: sets register `x` to register `y` minus register `x`; the flag
    /// is 1 when there is no borrow.
    pub fn execute_8xy7(&mut self, opcode: Opcode) -> (code: u32)
        ensures
            final(self)@ == step_spec(old(self)@, Handler::H8xy7, opcode, 0),
            code == code_spec(old(self)@, Handler::H8xy7, opcode),
    {
        let (x, y) = opcode.xy();
        let vx = self.v[x];
        let vy = self.v[y];
        self.v[x] = vy.wrapping_sub(vx);
        self.v[0xF] = if vy >= vx {
            1
        } else {
            0
        };
        0
    }

    /// 8xyE: shifts register `x` left by one; the flag is the bit shifted out.
    pub fn execute_8xyE(&mut self, opcode: Opcode) -> (code: u32)
        ensures
            final(self)@ == step_spec(old(self)@, Handler::H8xyE, opcode, 0),
            code == code_spec(old(self)@, Handler::H8xyE, opcode),
    {
        let x = opcode.x();
        let vx = self.v[x];
        let c = (vx >> 7) & 1;
        assert(vx << 1 == (vx * 2) % 256 && ((vx >> 7) & 1 == 1 <==> vx >= 128) && ((vx >> 7) & 1
            == 0 || (vx >> 7) & 1 == 1)) by (bit_vector);
        self.v[x] = vx << 1;
        self.v[0xF] = c;
        0
    }

    /// 9xy0: skips the next instruction if registers `x` and `y` differ.
    pub fn execute_9xy0(&mut self, opcode: Opcode) -> (code: u32)
        ensures
            final(self)@ == step_spec(old(self)@, Handler::H9xy0, opcode, 0),
            code == code_spec(old(self)@, Handler::H9xy0, opcode),
    {
        let (x, y) = opcode.xy();
        if self.v[x] != self.v[y] {
            self.pc = self.pc.wrapping_add(2);
            1
        } else {
            0
        }
    }

    /// Annn: sets the address register to `nnn`.
    pub fn execute_Annn(&mut self, opcode: Opcode) -> (code: u32)
        ensures
            final(self)@ == step_spec(old(self)@, Handler::HAnnn, opcode, 0),
            code == code_spec(old(self)@, Handler::HAnnn, opcode),
    {
        self.i = opcode.nnn();
        0
    }

    /// Bnnn: jumps to `nnn` plus register 0.
    pub fn execute_Bnnn(&mut self, opcode: Opcode) -> (code: u32)
        ensures
            final(self)@ == step_spec(old(self)@, Handler::HBnnn, opcode, 0),
            code == code_spec(old(self)@, Handler::HBnnn, opcode),
    {
        self.pc = opcode.nnn() + self.v[0] as u16;
        1
    }

    /// Cxkk: sets register `x` to a random byte ANDed with `kk`.
    pub fn execute_Cxkk(&mut self, opcode: Opcode) -> (code: u32)
        ensures
            exists|random: u8|
                final(self)@ == #[trigger] step_spec(old(self)@, Handler::HCxkk, opcode, random),
            code == code_spec(old(self)@, Handler::HCxkk, opcode),
    {
        let random = gen_range(0, 256) as u8;
        self.store_random(opcode, random)
    }

    /// The rest of Cxkk once the random byte is drawn: sets register `x` to
    /// `random` ANDed with `kk`.
    pub fn store_random(&mut self, opcode: Opcode, random: u8) -> (code: u32)
        ensures
            final(self)@ == step_spec(old(self)@, Handler::HCxkk, opcode, random),
            code == code_spec(old(self)@, Handler::HCxkk, opcode),
    {
        let (x, kk) = opcode.xkk();
        self.v[x] = random & kk;
        0
    }

    /// Dxyn: draws the `n`-row sprite at the address register at the
    /// position held in registers `x` and `y`.
    pub fn execute_Dxyn(&mut self, opcode: Opcode) -> (code: u32)
        requires
            executable(old(self)@, Handler::HDxyn, opcode),
        ensures
            final(self)@ == step_spec(old(self)@, Handler::HDxyn, opcode, 0),
            code == code_spec(old(self)@, Handler::HDxyn, opcode),
    {
        let (x, y) = opcode.xy();
        let n = opcode.n();
        self.draw(x, y, n);
        0
    }

    /// Ex9E: skips the next instruction if the key named by register `x` is down.
    pub fn execute_Ex9E(&mut self, opcode: Opcode) -> (code: u32)
        requires
            executable(old(self)@, Handler::HEx9E, opcode),
        ensures
            final(self)@ == step_spec(old(self)@, Handler::HEx9E, opcode, 0),
            code == code_spec(old(self)@, Handler::HEx9E, opcode),
    {
        let x = opcode.x();
        if self.keys[self.v[x] as usize] {
            self.pc = self.pc.wrapping_add(2);
            1
        } else {
            0
        }
    }

    /// ExA1: skips the next instruction if the key named by register `x` is up.
    pub fn execute_ExA1(&mut self, opcode: Opcode) -> (code: u32)
        requires
            executable(old(self)@, Handler::HExA1, opcode),
        ensures
            final(self)@ == step_spec(old(self)@, Handler::HExA1, opcode, 0),
            code == code_spec(old(self)@, Handler::HExA1, opcode),
    {
        let x = opcode.x();
        if !self.keys[self.v[x] as usize] {
            self.pc = self.pc.wrapping_add(2);
            1
        } else {
            0
        }
    }

    /// Fx07: copies the delay timer into register `x`.
    pub fn execute_Fx07(&mut self, opcode: Opcode) -> (code: u32)
        ensures
            final(self)@ == step_spec(old(self)@, Handler::HFx07, opcode, 0),
            code == code_spec(old(self)@, Handler::HFx07, opcode),
    {
        let x = opcode.x();
        self.v[x] = self.delay;
        0
    }

    /// Fx0A: waits for a key. Until a key has been pressed and released the
    /// program counter is moved back onto this instruction.
    pub fn execute_Fx0A(&mut self, opcode: Opcode) -> (code: u32)
        ensures
            final(self)@ == step_spec(old(self)@, Handler::HFx0A, opcode, 0),
            code == code_spec(old(self)@, Handler::HFx0A, opcode),
    {
        let x = opcode.x();
        if !self.wait_key(x) {
            self.pc = self.pc.wrapping_sub(2);
            1
        } else {
            0
        }
    }

    /// Fx15: sets the delay timer to register `x`.
    pub fn execute_Fx15(&mut self, opcode: Opcode) -> (code: u32)
        ensures
            final(self)@ == step_spec(old(self)@, Handler::HFx15, opcode, 0),
            code == code_spec(old(self)@, Handler::HFx15, opcode),
    {
        let x = opcode.x();
        self.delay = self.v[x];
        0
    }

    /// Fx18: sets the sound timer to register `x`.
    pub fn execute_Fx18(&mut self, opcode: Opcode) -> (code: u32)
        ensures
            final(self)@ == step_spec(old(self)@, Handler::HFx18, opcode, 0),
            code == code_spec(old(self)@, Handler::HFx18, opcode),
    {
        let x = opcode.x();
        self.sound = self.v[x];
        0
    }

    /// Fx1E: adds register `x` to the address register, wrapping.
    pub fn execute_Fx1E(&mut self, opcode: Opcode) -> (code: u32)
        ensures
            final(self)@ == step_spec(old(self)@, Handler::HFx1E, opcode, 0),
            code == code_spec(old(self)@, Handler::HFx1E, opcode),
    {
        let x = opcode.x();
        self.i = self.i.wrapping_add(self.v[x] as u16);
        0
    }

    /// Fx29: points the address register at the font sprite of the digit in
    /// register `x`.
    pub fn execute_Fx29(&mut self, opcode: Opcode) -> (code: u32)
        ensures
            final(self)@ == step_spec(old(self)@, Handler::HFx29, opcode, 0),
            code == code_spec(old(self)@, Handler::HFx29, opcode),
    {
        let x = opcode.x();
        self.i = self.v[x] as u16 * 5;
        0
    }

    /// Fx33: writes the hundreds, tens and ones digits of register `x` at
    /// the address register.
    pub fn execute_Fx33(&mut self, opcode: Opcode) -> (code: u32)
        requires
            executable(old(self)@, Handler::HFx33, opcode),
        ensures
            final(self)@ == step_spec(old(self)@, Handler::HFx33, opcode, 0),
            code == code_spec(old(self)@, Handler::HFx33, opcode),
    {
        let x = opcode.x();
        let vx = self.v[x];
        let i = self.i as usize;
        self.memory[i] = vx / 100;
        self.memory[i + 1] = (vx / 10) % 10;
        self.memory[i + 2] = vx % 10;
        0
    }

    /// Fx55: copies registers `0..=x` to memory at the address register and
    /// returns the code that invalidates the bytes written.
    pub fn execute_Fx55(&mut self, opcode: Opcode) -> (code: u32)
        requires
            executable(old(self)@, Handler::HFx55, opcode),
        ensures
            final(self)@ == step_spec(old(self)@, Handler::HFx55, opcode, 0),
            code == code_spec(old(self)@, Handler::HFx55, opcode),
    {
        let x = opcode.x();
        let base = self.i as usize;
        let ghost s = old(self)@;
        let mut k: usize = 0;
        while k <= x
            invariant
                k <= x + 1,
                x < 16,
                base == s.i,
                base + x < 4096,
                s == old(self)@,
                self@ == (StateView { memory: self@.memory, ..s }),
                self@.memory == store_registers(s.memory, s.v, base as int, k as int - 1),
            decreases x + 1 - k,
        {
            self.memory[base + k] = self.v[k];
            k += 1;
            assert(self@.memory =~= store_registers(s.memory, s.v, base as int, k as int - 1));
        }
        (self.i as u32) << 16 | (self.i as u32 + x as u32)
    }

    /// Fx65: copies memory at the address register into registers `0..=x`.
    pub fn execute_Fx65(&mut self, opcode: Opcode) -> (code: u32)
        requires
            executable(old(self)@, Handler::HFx65, opcode),
        ensures
            final(self)@ == step_spec(old(self)@, Handler::HFx65, opcode, 0),
            code == code_spec(old(self)@, Handler::HFx65, opcode),
    {
        let x = opcode.x();
        let base = self.i as usize;
        let ghost s = old(self)@;
        let mut k: usize = 0;
        while k <= x
            invariant
                k <= x + 1,
                x < 16,
                base == s.i,
                base + x < 4096,
                s == old(self)@,
                self@ == (StateView { v: self@.v, ..s }),
                self@.v == load_registers(s.memory, s.v, base as int, k as int - 1),
            decreases x + 1 - k,
        {
            self.v[k] = self.memory[base + k];
            k += 1;
            assert(self@.v =~= load_registers(s.memory, s.v, base as int, k as int - 1));
        }
        0
    }
}

/// Selects the handler of an instruction word.
pub fn decode(opcode: Opcode) -> (h: Handler)
    ensures
        h == decode_spec(opcode),
{
    let w = opcode.0;
    assert((w >> 12) == w / 4096 && (w >> 8) & 0xF == (w / 256) % 16 && (w >> 4) & 0xF == (w
        / 16) % 16 && w & 0xF == w % 16) by (bit_vector);
    let n1 = (w >> 8) & 0xF;
    let n2 = (w >> 4) & 0xF;
    let n3 = w & 0xF;
    match w >> 12 {
        0x0 => if n1 == 0 && n2 == 0xE && n3 == 0x0 {
            Handler::H00E0
        } else if n1 == 0 && n2 == 0xE && n3 == 0xE {
            Handler::H00EE
        } else {
            Handler::Invalid
        },
        0x1 => Handler::H1nnn,
        0x2 => Handler::H2nnn,
        0x3 => Handler::H3xkk,
        0x4 => Handler::H4xkk,
        0x5 => if n3 == 0 {
            Handler::H5xy0
        } else {
            Handler::Invalid
        },
        0x6 => Handler::H6xkk,
        0x7 => Handler::H7xkk,
        0x8 => match n3 {
            0x0 => Handler::H8xy0,
            0x1 => Handler::H8xy1,
            0x2 => Handler::H8xy2,
            0x3 => Handler::H8xy3,
            0x4 => Handler::H8xy4,
            0x5 => Handler::H8xy5,
            0x6 => Handler::H8xy6,
            0x7 => Handler::H8xy7,
            0xE => Handler::H8xyE,
            _ => Handler::Invalid,
        },
        0x9 => if n3 == 0 {
            Handler::H9xy0
        } else {
            Handler::Invalid
        },
        0xA => Handler::HAnnn,
        0xB => Handler::HBnnn,
        0xC => Handler::HCxkk,
        0xD => Handler::HDxyn,
        0xE => if n2 == 0x9 && n3 == 0xE {
            Handler::HEx9E
        } else if n2 == 0xA && n3 == 0x1 {
            Handler::HExA1
        } else {
            Handler::Invalid
        },
        _ => if n2 == 0x0 && n3 == 0x7 {
            Handler::HFx07
        } else if n2 == 0x0 && n3 == 0xA {
            Handler::HFx0A
        } else if n2 == 0x1 && n3 == 0x5 {
            Handler::HFx15
        } else if n2 == 0x1 && n3 == 0x8 {
            Handler::HFx18
        } else if n2 == 0x1 && n3 == 0xE {
            Handler::HFx1E
        } else if n2 == 0x2 && n3 == 0x9 {
            Handler::HFx29
        } else if n2 == 0x3 && n3 == 0x3 {
            Handler::HFx33
        } else if n2 == 0x5 && n3 == 0x5 {
            Handler::HFx55
        } else if n2 == 0x6 && n3 == 0x5 {
            Handler::HFx65
        } else {
            Handler::Invalid
        },
    }
}

/// Whether a block of straight-line code ends with this handler's instruction.
pub fn is_block_end(h: Handler) -> (b: bool)
    ensures
        b == ends_block(h),
{
    match h {
        Handler::H00EE
        | Handler::H1nnn
        | Handler::H2nnn
        | Handler::HBnnn
        | Handler::HFx0A
        | Handler::HFx55 => true,
        _ => false,
    }
}

impl State {
    /// The warning that executing handler `h` now would give rise to: the
    /// instruction then does nothing but end its block.
    pub fn stack_warning(&self, h: Handler) -> (warning: Option<StackWarning>)
        ensures
            warning == stack_warning_spec(self@, h),
    {
        match h {
            Handler::H00EE => if self.sp == 0 {
                Some(StackWarning::Underflow)
            } else {
                None
            },
            Handler::H2nnn => if self.sp >= 0xF {
                Some(StackWarning::Overflow)
            } else {
                None
            },
            _ => None,
        }
    }

    /// Reads the instruction word at `pc`, high byte first.
    pub fn fetch(&self, pc: u16) -> (opcode: Opcode)
        requires
            pc + 1 < 4096,
        ensures
            opcode == fetch_spec(self@.memory, pc as int),
    {
        Opcode(((self.memory[pc as usize] as u16) << 8) | (self.memory[pc as usize + 1] as u16))
    }

    /// Whether `execute` may be called with this handler and word: the
    /// word is an instruction and every index it uses is in range.
    pub fn can_execute(&self, h: Handler, opcode: Opcode) -> (b: bool)
        ensures
            b == executable(self@, h, opcode),
    {
        match h {
            Handler::H00EE => self.sp <= 16,
            Handler::HDxyn => self.i as usize + opcode.n() as usize <= 4096,
            Handler::HEx9E | Handler::HExA1 => self.v[opcode.x()] < 16,
            Handler::HFx33 => (self.i as usize) + 2 < 4096,
            Handler::HFx55 | Handler::HFx65 => self.i as usize + opcode.x() < 4096,
            Handler::Invalid => false,
            _ => true,
        }
    }

    /// Executes one instruction with the given handler and returns its
    /// control code. The program counter must already point past the
    /// instruction.
    pub fn execute(&mut self, h: Handler, opcode: Opcode) -> (code: u32)
        requires
            executable(old(self)@, h, opcode),
        ensures
            exists|random: u8| final(self)@ == #[trigger] step_spec(old(self)@, h, opcode, random),
            h != Handler::HCxkk ==> final(self)@ == step_spec(old(self)@, h, opcode, 0),
            code == code_spec(old(self)@, h, opcode),
    {
        match h {
            Handler::H00E0 => self.execute_00E0(opcode),
            Handler::H00EE => self.execute_00EE(opcode),
            Handler::H1nnn => self.execute_1nnn(opcode),
            Handler::H2nnn => self.execute_2nnn(opcode),
            Handler::H3xkk => self.execute_3xkk(opcode),
            Handler::H4xkk => self.execute_4xkk(opcode),
            Handler::H5xy0 => self.execute_5xy0(opcode),
            Handler::H6xkk => self.execute_6xkk(opcode),
            Handler::H7xkk => self.execute_7xkk(opcode),
            Handler::H8xy0 => self.execute_8xy0(opcode),
            Handler::H8xy1 => self.execute_8xy1(opcode),
            Handler::H8xy2 => self.execute_8xy2(opcode),
            Handler::H8xy3 => self.execute_8xy3(opcode),
            Handler::H8xy4 => self.execute_8xy4(opcode),
            Handler::H8xy5 => self.execute_8xy5(opcode),
            Handler::H8xy6 => self.execute_8xy6(opcode),
            Handler::H8xy7 => self.execute_8xy7(opcode),
            Handler::H8xyE => self.execute_8xyE(opcode),
            Handler::H9xy0 => self.execute_9xy0(opcode),
            Handler::HAnnn => self.execute_Annn(opcode),
            Handler::HBnnn => self.execute_Bnnn(opcode),
            Handler::HCxkk => self.execute_Cxkk(opcode),
            Handler::HDxyn => self.execute_Dxyn(opcode),
            Handler::HEx9E => self.execute_Ex9E(opcode),
            Handler::HExA1 => self.execute_ExA1(opcode),
            Handler::HFx07 => self.execute_Fx07(opcode),
            Handler::HFx0A => self.execute_Fx0A(opcode),
            Handler::HFx15 => self.execute_Fx15(opcode),
            Handler::HFx18 => self.execute_Fx18(opcode),
            Handler::HFx1E => self.execute_Fx1E(opcode),
            Handler::HFx29 => self.execute_Fx29(opcode),
            Handler::HFx33 => self.execute_Fx33(opcode),
            Handler::HFx55 => self.execute_Fx55(opcode),
            Handler::HFx65 => self.execute_Fx65(opcode),
            Handler::Invalid => 0,
        }
    }
}

impl State {
    /// Executes the instruction `opcode`, which lies at `pc`, with handler
    /// `h`: moves the program counter past it and runs the handler. If the
    /// instruction cannot be executed, returns the fault and changes nothing.
    pub fn execute_at(&mut self, h: Handler, opcode: Opcode) -> (r: Result<u32, Fault>)
        ensures
            exists|random: u8|
                step_result(
                    #[trigger] execute_at_spec(old(self)@, h, opcode, random),
                    final(self)@,
                    r,
                ),
            h != Handler::HCxkk ==> step_result(
                execute_at_spec(old(self)@, h, opcode, 0),
                final(self)@,
                r,
            ),
    {
        proof {
            reveal(execute_at_spec);
        }
        if !self.can_execute(h, opcode) {
            let fault = match h {
                Handler::Invalid => Fault::InvalidOpcode { opcode: opcode.0, pc: self.pc },
                _ => Fault::OutOfRange { pc: self.pc },
            };
            assert(step_result(execute_at_spec(old(self)@, h, opcode, 0), self@, Err(fault)));
            return Err(fault);
        }
        self.pc = self.pc.wrapping_add(2);
        let ghost mid = self@;
        let code = self.execute(h, opcode);
        proof {
            let random = choose|random: u8| self@ == #[trigger] step_spec(mid, h, opcode, random);
            assert(step_result(execute_at_spec(old(self)@, h, opcode, random), self@, Ok(code)));
        }
        Ok(code)
    }

    /// One step of the interpreter without the timers: fetches the word at
    /// `pc`, looks its handler up in the decoder table and executes it.
    pub fn step(&mut self, decoder: &Decoder) -> (r: Result<u32, Fault>)
        ensures
            exists|random: u8|
                step_result(#[trigger] interpreter_spec(old(self)@, random), final(self)@, r),
    {
        if self.pc >= 0xFFF {
            let fault = Fault::OutOfRange { pc: self.pc };
            assert(step_result(interpreter_spec(old(self)@, 0), self@, Err(fault)));
            return Err(fault);
        }
        let opcode = self.fetch(self.pc);
        let h = decoder.lookup(opcode);
        let r = self.execute_at(h, opcode);
        proof {
            let random = choose|random: u8|
                step_result(#[trigger] execute_at_spec(old(self)@, h, opcode, random), self@, r);
            assert(step_result(interpreter_spec(old(self)@, random), self@, r));
        }
        r
    }
}

/// What a step of the interpreter backend leaves behind: for some random
/// byte, the machine and the result of one interpreter step and the
/// timers; every cache table as it was.
pub open spec fn interpreter_post(
    before: Chip8,
    after: Chip8,
    r: Result<Option<Risp8Answer>, Fault>,
) -> bool {
    &&& exists|random: u8|
        {
            &&& core_result(#[trigger] interpreter_spec(before.state@, random), after.state@, r)
            &&& after.warning == interpreter_spec(before.state@, random).warning
        }
    &&& after.interpreter_caches == before.interpreter_caches
    &&& after.interpreter_caches_2 == before.interpreter_caches_2
    &&& after.interpreter_caches_3 == before.interpreter_caches_3
    &&& after.jit_caches == before.jit_caches
}

impl Chip8 {
    /// Executes a single instruction using the interpreter, then handles
    /// the timers.
    pub fn interpreter(&mut self) -> (r: Result<Option<Risp8Answer>, Fault>)
        ensures
            old(self).wf() ==> final(self).wf(),
            interpreter_post(*old(self), *final(self), r),
            final(self).play == old(self).play,
            final(self).execution_method == old(self).execution_method,
            final(self).decoder == old(self).decoder,
            final(self).jit_caches == old(self).jit_caches,
    {
        let ghost s0 = self.state@;
        let warned = if self.state.pc < 0xFFF {
            self.state.stack_warning(self.decoder.lookup(self.state.fetch(self.state.pc)))
        } else {
            None
        };
        let stepped = self.state.step(&self.decoder);
        let ghost random = choose|random: u8|
            step_result(#[trigger] interpreter_spec(s0, random), self.state@, stepped);
        proof {
            if s0.pc + 1 < 4096 {
                let op = fetch_spec(s0.memory, s0.pc as int);
                lemma_warning_ends_block(s0, decode_spec(op), op, random);
            }
        }
        match stepped {
            Err(fault) => {
                self.warning = None;
                assert(core_result(interpreter_spec(s0, random), self.state@, Err(fault)));
                Err(fault)
            },
            Ok(_) => {
                self.warning = warned;
                let answer = handle_timers(&mut self.state, &mut self.timer);
                assert(core_result(interpreter_spec(s0, random), self.state@, Ok(answer)));
                Ok(answer)
            },
        }
    }
}

} // verus!
