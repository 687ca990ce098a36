//! The guest machine: registers, memory, screen, keys and the wait-key status.

use vstd::prelude::*;

verus! {

/// The 64 x 32 monochrome screen, row-major: `screen[y][x]`, `true` = lit.
pub type Screen = [[bool; 64]; 32];

/// Progress of a wait-for-key instruction.
#[derive(Clone, Copy, Debug, PartialEq, Eq, Structural)]
pub enum WaitKey {
    /// No wait-for-key instruction is pending.
    NotWaiting,
    /// A wait-for-key instruction ran and no key has been released since.
    Waiting,
    /// The awaited key was pressed and released; the next execution consumes it.
    Key(u8),
}

/// The canonical hexadecimal digit sprites, five bytes per digit.
pub const FONT: [u8; 80] = [
    0xF0, 0x90, 0x90, 0x90, 0xF0,
    0x20, 0x60, 0x20, 0x20, 0x70,
    0xF0, 0x10, 0xF0, 0x80, 0xF0,
    0xF0, 0x10, 0xF0, 0x10, 0xF0,
    0x90, 0x90, 0xF0, 0x10, 0x10,
    0xF0, 0x80, 0xF0, 0x10, 0xF0,
    0xF0, 0x80, 0xF0, 0x90, 0xF0,
    0xF0, 0x10, 0x20, 0x40, 0x40,
    0xF0, 0x90, 0xF0, 0x90, 0xF0,
    0xF0, 0x90, 0xF0, 0x10, 0xF0,
    0xF0, 0x90, 0xF0, 0x90, 0x90,
    0xE0, 0x90, 0xE0, 0x90, 0xE0,
    0xF0, 0x80, 0x80, 0x80, 0xF0,
    0xE0, 0x90, 0x90, 0x90, 0xE0,
    0xF0, 0x80, 0xF0, 0x80, 0xF0,
    0xF0, 0x80, 0xF0, 0x80, 0x80,
];

/// Width of the screen in pixels.
pub const SCREEN_WIDTH: usize = 64;

/// Height of the screen in pixels.
pub const SCREEN_HEIGHT: usize = 32;

/// Address at which programs are loaded and start executing.
pub const INITIAL_PC: usize = 0x200;

/// Number of bytes of guest memory.
pub const MEMORY_SIZE: usize = 0x1000;

/// Largest program that fits between `INITIAL_PC` and the end of memory.
pub const MAX_PROGRAM_LEN: usize = 0xE00;

/// State of the CHIP-8 virtual machine.
#[derive(Clone, Copy, Debug)]
pub struct State {
    /// Number of return addresses on the stack.
    pub sp: usize,
    /// Address of the next instruction.
    pub pc: u16,
    /// The address register.
    pub i: u16,
    /// Return addresses; only `stack[0..sp)` is meaningful.
    pub stack: [u16; 16],
    /// General registers; `v[0xF]` doubles as the flag register.
    pub v: [u8; 16],
    /// Guest memory.
    pub memory: [u8; 4096],
    /// Delay timer.
    pub delay: u8,
    /// Sound timer.
    pub sound: u8,
    /// The screen.
    pub screen: Screen,
    /// Latest host key state.
    pub keys: [bool; 16],
    /// Wait-for-key status.
    pub wait_key: WaitKey,
}

/// Mathematical model of a [`State`]: every array as a sequence.
#[verifier::ext_equal]
pub struct StateView {
    pub sp: int,
    pub pc: u16,
    pub i: u16,
    pub stack: Seq<u16>,
    pub v: Seq<u8>,
    pub memory: Seq<u8>,
    pub delay: u8,
    pub sound: u8,
    pub screen: Seq<Seq<bool>>,
    pub keys: Seq<bool>,
    pub wait_key: WaitKey,
}

/// The model of a screen: 32 rows of 64 pixels.
pub open spec fn screen_view(screen: Screen) -> Seq<Seq<bool>> {
    Seq::new(32, |y: int| screen@[y]@)
}

/// A screen with every pixel off.
pub open spec fn blank_screen() -> Seq<Seq<bool>> {
    Seq::new(32, |y: int| Seq::new(64, |x: int| false))
}

/// Memory as it is when a program has just been loaded: the font at 0,
/// the program at `INITIAL_PC`, zero elsewhere.
pub open spec fn initial_memory(program: Seq<u8>) -> Seq<u8> {
    Seq::new(
        4096,
        |a: int|
            if a < 80 {
                FONT@[a]
            } else if 0x200 <= a < 0x200 + program.len() {
                program[a - 0x200]
            } else {
                0u8
            },
    )
}

/// The machine as it is when a program has just been loaded.
pub open spec fn initial_state(program: Seq<u8>) -> StateView {
    StateView {
        sp: 0,
        pc: 0x200,
        i: 0,
        stack: Seq::new(16, |k: int| 0u16),
        v: Seq::new(16, |k: int| 0u8),
        memory: initial_memory(program),
        delay: 0,
        sound: 0,
        screen: blank_screen(),
        keys: Seq::new(16, |k: int| false),
        wait_key: WaitKey::NotWaiting,
    }
}

impl StateView {
    /// Shape of every model of a [`State`]: the array lengths.
    pub open spec fn shaped(self) -> bool {
        &&& self.sp >= 0
        &&& self.stack.len() == 16
        &&& self.v.len() == 16
        &&& self.memory.len() == 4096
        &&& self.keys.len() == 16
        &&& self.screen.len() == 32
        &&& forall|y: int| 0 <= y < 32 ==> (#[trigger] self.screen[y]).len() == 64
    }

    /// The stack depth leaves the last slot free, so depth 16 is never reached.
    pub open spec fn wf(self) -> bool {
        self.shaped() && self.sp <= 15
    }
}

impl View for State {
    type V = StateView;

    open spec fn view(&self) -> StateView {
        StateView {
            sp: self.sp as int,
            pc: self.pc,
            i: self.i,
            stack: self.stack@,
            v: self.v@,
            memory: self.memory@,
            delay: self.delay,
            sound: self.sound,
            screen: screen_view(self.screen),
            keys: self.keys@,
            wait_key: self.wait_key,
        }
    }
}

impl State {
    /// Every state has a model of the right shape.
    pub proof fn lemma_view_shaped(&self)
        ensures
            self@.shaped(),
    {
    }

    /// Returns a new machine with the given program loaded.
    pub fn new(program: &[u8]) -> (s: State)
        requires
            program@.len() <= MAX_PROGRAM_LEN,
        ensures
            s@ == initial_state(program@),
            s@.wf(),
    {
        let s = State {
            sp: 0,
            pc: 0x200,
            i: 0,
            stack: [0; 16],
            v: [0; 16],
            memory: Self::new_memory(program),
            delay: 0,
            sound: 0,
            screen: [[false; 64]; 32],
            keys: [false; 16],
            wait_key: WaitKey::NotWaiting,
        };
        assert(s@ =~~= initial_state(program@));
        s
    }

    /// Returns the memory in its initial state with the given program loaded.
    pub fn new_memory(program: &[u8]) -> (memory: [u8; 4096])
        requires
            program@.len() <= MAX_PROGRAM_LEN,
        ensures
            memory@ == initial_memory(program@),
    {
        let mut memory: [u8; 4096] = [0; 4096];
        let mut a: usize = 0;
        while a < 80
            invariant
                a <= 80,
                forall|k: int| 0 <= k < a ==> memory@[k] == FONT@[k],
                forall|k: int| a <= k < 4096 ==> memory@[k] == 0,
            decreases 80 - a,
        {
            memory[a] = FONT[a];
            a += 1;
        }
        let len = program.len();
        let mut k: usize = 0;
        while k < len
            invariant
                k <= len,
                len == program@.len(),
                len <= MAX_PROGRAM_LEN,
                forall|j: int| 0 <= j < 80 ==> memory@[j] == FONT@[j],
                forall|j: int| 80 <= j < 0x200 ==> memory@[j] == 0,
                forall|j: int| 0x200 <= j < 0x200 + k ==> memory@[j] == program@[j - 0x200],
                forall|j: int| 0x200 + k <= j < 4096 ==> memory@[j] == 0,
            decreases len - k,
        {
            memory[INITIAL_PC + k] = program[k];
            k += 1;
        }
        assert(memory@ =~= initial_memory(program@));
        memory
    }

    /// Turns every pixel off.
    pub fn clear_screen(&mut self)
        ensures
            final(self)@ == (StateView { screen: blank_screen(), ..old(self)@ }),
    {
        self.screen = [[false; 64]; 32];
        assert(self@ =~~= (StateView { screen: blank_screen(), ..old(self)@ }));
    }
}

/// Whether bit `col` of sprite row `row` is set, bit 0 being the leftmost pixel.
pub open spec fn sprite_bit(memory: Seq<u8>, i: u16, row: int, col: int) -> bool {
    memory[i as int + row] & (0x80u8 >> (col as u8)) != 0
}

/// Whether an `n`-row sprite whose top-left corner is at column `ox`, row `oy`
/// has a set bit at column `c`, row `r`.
pub open spec fn sprite_covers(
    memory: Seq<u8>,
    i: u16,
    ox: int,
    oy: int,
    n: int,
    r: int,
    c: int,
) -> bool {
    oy <= r < oy + n && ox <= c < ox + 8 && sprite_bit(memory, i, r - oy, c - ox)
}

/// The part of the sprite that comes before bit `k` of row `j` in drawing order.
pub open spec fn sprite_covers_before(
    memory: Seq<u8>,
    i: u16,
    ox: int,
    oy: int,
    n: int,
    j: int,
    k: int,
    r: int,
    c: int,
) -> bool {
    sprite_covers(memory, i, ox, oy, n, r, c) && (r - oy < j || (r - oy == j && c - ox < k))
}

/// Whether the pixel at column `c`, row `r` is on the screen, lit, and hit by
/// the part of the sprite that comes before bit `k` of row `j`.
pub open spec fn erases_at(s: StateView, ox: int, oy: int, n: int, j: int, k: int, r: int, c: int) -> bool {
    0 <= r < 32 && 0 <= c < 64 && s.screen[r][c] && sprite_covers_before(
        s.memory,
        s.i,
        ox,
        oy,
        n,
        j,
        k,
        r,
        c,
    )
}

/// Whether the part of the sprite before bit `k` of row `j` turns a lit pixel off.
pub open spec fn erases_before(s: StateView, ox: int, oy: int, n: int, j: int, k: int) -> bool {
    exists|r: int, c: int| #[trigger] erases_at(s, ox, oy, n, j, k, r, c)
}

/// Column of the sprite's left edge: register `x` modulo the width, read
/// after the flag register has been cleared.
pub open spec fn draw_origin_x(s: StateView, x: int) -> int {
    s.v.update(15, 0u8)[x] as int % 64
}

/// Row of the sprite's top edge: register `y` modulo the height, read after
/// the flag register has been cleared.
pub open spec fn draw_origin_y(s: StateView, y: int) -> int {
    s.v.update(15, 0u8)[y] as int % 32
}

/// Whether drawing turns at least one lit pixel off.
pub open spec fn draw_erases(s: StateView, x: int, y: int, n: int) -> bool {
    exists|r: int, c: int|
        0 <= r < 32 && 0 <= c < 64 && s.screen[r][c] && #[trigger] sprite_covers(
            s.memory,
            s.i,
            draw_origin_x(s, x),
            draw_origin_y(s, y),
            n,
            r,
            c,
        )
}

/// The screen after drawing: every on-screen pixel under a set sprite bit is
/// toggled, every other pixel is kept. Sprite bits that fall past the right
/// or bottom edge have no pixel and are dropped.
pub open spec fn draw_screen(s: StateView, x: int, y: int, n: int) -> Seq<Seq<bool>> {
    Seq::new(
        32,
        |r: int|
            Seq::new(
                64,
                |c: int|
                    s.screen[r][c] ^ sprite_covers(
                        s.memory,
                        s.i,
                        draw_origin_x(s, x),
                        draw_origin_y(s, y),
                        n,
                        r,
                        c,
                    ),
            ),
    )
}

/// The machine after drawing the `n`-row sprite at `memory[i..]` at the
/// position held in registers `x` and `y`.
pub open spec fn draw_spec(s: StateView, x: int, y: int, n: int) -> StateView {
    StateView {
        v: s.v.update(
            15,
            if draw_erases(s, x, y, n) {
                1u8
            } else {
                0u8
            },
        ),
        screen: draw_screen(s, x, y, n),
        ..s
    }
}

/// Every pixel of the screen is toggled exactly if a set sprite bit lies
/// on it, and the flag register is 1 exactly if a lit pixel was turned off.
pub proof fn lemma_draw_toggles(s: StateView, x: int, y: int, n: int, r: int, c: int)
    requires
        s.shaped(),
        0 <= r < 32,
        0 <= c < 64,
    ensures
        draw_spec(s, x, y, n).screen[r][c] == (s.screen[r][c] != sprite_covers(
            s.memory,
            s.i,
            draw_origin_x(s, x),
            draw_origin_y(s, y),
            n,
            r,
            c,
        )),
        draw_spec(s, x, y, n).v[15] == 1 <==> draw_erases(s, x, y, n),
        draw_spec(s, x, y, n).v[15] == 0 <==> !draw_erases(s, x, y, n),
{
}

/// A sprite that crosses the right or bottom edge is clipped, never
/// wrapped: pixels to the left of its origin column or above its origin
/// row stay as they were.
pub proof fn lemma_draw_clips(s: StateView, x: int, y: int, n: int, r: int, c: int)
    requires
        s.shaped(),
        0 <= r < 32,
        0 <= c < 64,
        c < draw_origin_x(s, x) || r < draw_origin_y(s, y),
    ensures
        draw_spec(s, x, y, n).screen[r][c] == s.screen[r][c],
{
}

/// The machine after the host reports key `key` as pressed or released.
pub open spec fn set_key_spec(s: StateView, key: int, pressed: bool) -> StateView {
    if 0 <= key <= 0xF {
        StateView {
            keys: s.keys.update(key, pressed),
            wait_key: if s.wait_key == WaitKey::Waiting && s.keys[key] && !pressed {
                WaitKey::Key(key as u8)
            } else {
                s.wait_key
            },
            ..s
        }
    } else {
        s
    }
}

/// The machine after a wait-for-key instruction into register `x` has looked
/// at the wait-key status.
pub open spec fn wait_key_spec(s: StateView, x: int) -> StateView {
    match s.wait_key {
        WaitKey::NotWaiting => StateView { wait_key: WaitKey::Waiting, ..s },
        WaitKey::Waiting => s,
        WaitKey::Key(k) => StateView { v: s.v.update(x, k), wait_key: WaitKey::NotWaiting, ..s },
    }
}

/// Whether the wait is over: a key was pressed and released.
pub open spec fn wait_key_done(s: StateView) -> bool {
    s.wait_key is Key
}

/// A release of a key that was down, while waiting, records that key; any
/// other key event leaves the wait-key status as it was. In particular,
/// pressing then releasing key `k` while waiting records `k`.
pub proof fn lemma_wait_key_handshake(s: StateView, key: int, pressed: bool)
    requires
        s.shaped(),
    ensures
        s.wait_key == WaitKey::Waiting && 0 <= key <= 0xF ==> set_key_spec(
            set_key_spec(s, key, true),
            key,
            false,
        ).wait_key == WaitKey::Key(key as u8),
        s.wait_key == WaitKey::Waiting && 0 <= key <= 0xF && s.keys[key] && !pressed
            ==> set_key_spec(s, key, pressed).wait_key == WaitKey::Key(key as u8),
        !(s.wait_key == WaitKey::Waiting && 0 <= key <= 0xF && s.keys[key] && !pressed)
            ==> set_key_spec(s, key, pressed).wait_key == s.wait_key,
{
}

impl State {
    /// Draws the `n`-row sprite at `memory[i..i + n]` at column `v[x] % 64`,
    /// row `v[y] % 32`, toggling pixels and clipping at the right and bottom
    /// edges. The flag register becomes 1 if a lit pixel was turned off, else 0.
    pub fn draw(&mut self, x: usize, y: usize, n: u8)
        requires
            x < 16,
            y < 16,
            old(self).i + n <= 4096,
        ensures
            final(self)@ == draw_spec(old(self)@, x as int, y as int, n as int),
    {
        self.v[0xF] = 0;
        let ox: usize = self.v[x] as usize % 64;
        let oy: usize = self.v[y] as usize % 32;
        let ghost s = old(self)@;
        assert(ox == draw_origin_x(s, x as int));
        assert(oy == draw_origin_y(s, y as int));
        let mut j: usize = 0;
        while j < n as usize
            invariant
                j <= n,
                ox < 64,
                oy < 32,
                s == old(self)@,
                s.i + n <= 4096,
                self@ == (StateView { v: self@.v, screen: self@.screen, ..s }),
                self@.v == s.v.update(15, self@.v[15]),
                self@.v[15] == 1 <==> erases_before(s, ox as int, oy as int, n as int, j as int, 0),
                self@.v[15] == 0 || self@.v[15] == 1,
                forall|r: int, c: int|
                    0 <= r < 32 && 0 <= c < 64 ==> self@.screen[r][c] == (s.screen[r][c]
                        ^ #[trigger] sprite_covers_before(
                        s.memory,
                        s.i,
                        ox as int,
                        oy as int,
                        n as int,
                        j as int,
                        0,
                        r,
                        c,
                    )),
            decreases n - j,
        {
            let line = self.memory[self.i as usize + j];
            let row: usize = j + oy;
            let mut k: u8 = 0;
            while k < 8
                invariant
                    k <= 8,
                    j < n,
                    ox < 64,
                    oy < 32,
                    row == j + oy,
                    s == old(self)@,
                    s.i + n <= 4096,
                    line == s.memory[s.i + j],
                    self@ == (StateView { v: self@.v, screen: self@.screen, ..s }),
                    self@.v == s.v.update(15, self@.v[15]),
                    self@.v[15] == 1 <==> erases_before(
                        s,
                        ox as int,
                        oy as int,
                        n as int,
                        j as int,
                        k as int,
                    ),
                    self@.v[15] == 0 || self@.v[15] == 1,
                    forall|r: int, c: int|
                        0 <= r < 32 && 0 <= c < 64 ==> self@.screen[r][c] == (s.screen[r][c]
                            ^ #[trigger] sprite_covers_before(
                            s.memory,
                            s.i,
                            ox as int,
                            oy as int,
                            n as int,
                            j as int,
                            k as int,
                            r,
                            c,
                        )),
                decreases 8 - k,
            {
                let mask: u8 = 0x80u8 >> k;
                let col: usize = k as usize + ox;
                let ghost before = self@;
                let ghost hit = line & mask != 0 && col < 64 && row < 32;
                if line & mask != 0 && col < 64 && row < 32 {
                    if self.screen[row][col] {
                        self.screen[row][col] = false;
                        self.v[0xF] = 1;
                    } else {
                        self.screen[row][col] = true;
                    }
                }
                proof {
                    let oxi = ox as int;
                    let oyi = oy as int;
                    let ni = n as int;
                    let ji = j as int;
                    let ki = k as int;
                    assert(sprite_bit(s.memory, s.i, ji, ki) == (line & mask != 0));
                    assert forall|r: int, c: int|
                        sprite_covers_before(s.memory, s.i, oxi, oyi, ni, ji, ki + 1, r, c) == (
                        sprite_covers_before(s.memory, s.i, oxi, oyi, ni, ji, ki, r, c) || (r
                            == row && c == col && line & mask != 0)) by {}
                    assert forall|r: int, c: int| 0 <= r < 32 && 0 <= c < 64 implies self@.screen[r][c]
                        == (s.screen[r][c] ^ #[trigger] sprite_covers_before(
                        s.memory,
                        s.i,
                        oxi,
                        oyi,
                        ni,
                        ji,
                        ki + 1,
                        r,
                        c,
                    )) by {
                        assert(before.screen[r][c] == (s.screen[r][c] ^ sprite_covers_before(
                            s.memory,
                            s.i,
                            oxi,
                            oyi,
                            ni,
                            ji,
                            ki,
                            r,
                            c,
                        )));
                    }
                    if hit {
                        assert(!sprite_covers_before(
                            s.memory,
                            s.i,
                            oxi,
                            oyi,
                            ni,
                            ji,
                            ki,
                            row as int,
                            col as int,
                        ));
                        assert(before.screen[row as int][col as int] == s.screen[row as int][col as int]);
                    }
                    if erases_before(s, oxi, oyi, ni, ji, ki) {
                        let (r, c) = choose|r: int, c: int| #[trigger]
                            erases_at(s, oxi, oyi, ni, ji, ki, r, c);
                        assert(erases_at(s, oxi, oyi, ni, ji, ki + 1, r, c));
                    }
                    if hit && s.screen[row as int][col as int] {
                        assert(erases_at(s, oxi, oyi, ni, ji, ki + 1, row as int, col as int));
                    }
                    if erases_before(s, oxi, oyi, ni, ji, ki + 1) {
                        let (r, c) = choose|r: int, c: int| #[trigger]
                            erases_at(s, oxi, oyi, ni, ji, ki + 1, r, c);
                        if !(r == row && c == col) {
                            assert(erases_at(s, oxi, oyi, ni, ji, ki, r, c));
                        }
                    }
                    assert(self@.v =~= s.v.update(15, self@.v[15]));
                }
                k += 1;
            }
            proof {
                let oxi = ox as int;
                let oyi = oy as int;
                let ni = n as int;
                let ji = j as int;
                assert forall|r: int, c: int| 0 <= r < 32 && 0 <= c < 64 implies self@.screen[r][c]
                    == (s.screen[r][c] ^ #[trigger] sprite_covers_before(
                    s.memory,
                    s.i,
                    oxi,
                    oyi,
                    ni,
                    ji + 1,
                    0,
                    r,
                    c,
                )) by {
                    assert(sprite_covers_before(s.memory, s.i, oxi, oyi, ni, ji, 8, r, c)
                        == sprite_covers_before(s.memory, s.i, oxi, oyi, ni, ji + 1, 0, r, c));
                }
                if erases_before(s, oxi, oyi, ni, ji, 8) {
                    let (r, c) = choose|r: int, c: int| #[trigger]
                        erases_at(s, oxi, oyi, ni, ji, 8, r, c);
                    assert(erases_at(s, oxi, oyi, ni, ji + 1, 0, r, c));
                }
                if erases_before(s, oxi, oyi, ni, ji + 1, 0) {
                    let (r, c) = choose|r: int, c: int| #[trigger]
                        erases_at(s, oxi, oyi, ni, ji + 1, 0, r, c);
                    assert(erases_at(s, oxi, oyi, ni, ji, 8, r, c));
                }
            }
            j += 1;
        }
        proof {
            let oxi = ox as int;
            let oyi = oy as int;
            let ni = n as int;
            assert forall|r: int, c: int|
                sprite_covers_before(s.memory, s.i, oxi, oyi, ni, ni, 0, r, c) == sprite_covers(
                    s.memory,
                    s.i,
                    oxi,
                    oyi,
                    ni,
                    r,
                    c,
                ) by {}
            if erases_before(s, oxi, oyi, ni, ni, 0) {
                let (r, c) = choose|r: int, c: int| #[trigger]
                    erases_at(s, oxi, oyi, ni, ni, 0, r, c);
                assert(sprite_covers(s.memory, s.i, oxi, oyi, ni, r, c));
            }
            if draw_erases(s, x as int, y as int, ni) {
                let (r, c) = choose|r: int, c: int|
                    0 <= r < 32 && 0 <= c < 64 && s.screen[r][c] && #[trigger] sprite_covers(
                        s.memory,
                        s.i,
                        oxi,
                        oyi,
                        ni,
                        r,
                        c,
                    );
                assert(erases_at(s, oxi, oyi, ni, ni, 0, r, c));
            }
            assert(self@.screen =~~= draw_screen(s, x as int, y as int, ni));
            assert(self@ =~~= draw_spec(s, x as int, y as int, ni));
        }
    }

    /// Sets a key as pressed or released. `key` is the key number, 0 to 15;
    /// other numbers are ignored. A release of a key that was down ends a
    /// pending wait for a key.
    pub fn set_key(&mut self, key: usize, pressed: bool)
        ensures
            final(self)@ == set_key_spec(old(self)@, key as int, pressed),
    {
        if key <= 0xF {
            if self.wait_key == WaitKey::Waiting && self.keys[key] && !pressed {
                self.wait_key = WaitKey::Key(key as u8);
            }
            self.keys[key] = pressed;
        }
        assert(self@ =~~= set_key_spec(old(self)@, key as int, pressed));
    }

    /// Returns true if the wait is over, and then stores the key in register
    /// `x`; returns false if the wait goes on.
    pub fn wait_key(&mut self, x: usize) -> (done: bool)
        requires
            x < 16,
        ensures
            done == wait_key_done(old(self)@),
            final(self)@ == wait_key_spec(old(self)@, x as int),
    {
        let done = match self.wait_key {
            WaitKey::NotWaiting => {
                self.wait_key = WaitKey::Waiting;
                false
            },
            WaitKey::Waiting => false,
            WaitKey::Key(k) => {
                self.v[x] = k;
                self.wait_key = WaitKey::NotWaiting;
                true
            },
        };
        assert(self@ =~~= wait_key_spec(old(self)@, x as int));
        done
    }
}

} // verus!
