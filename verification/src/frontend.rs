//! What a front-end decides: which command a key stands for, what it
//! shows of the core's settings, and the colors of the screen.

use vstd::prelude::*;
use crate::chip8::{ExecutionMethod, Risp8Command};
use crate::state::Screen;

verus! {

/// State of the terminal front-end.
pub struct TuiApp {
    /// Whether the core was last told to play.
    pub is_playing: bool,
    /// The backend the core was last told to use.
    pub execution_method: ExecutionMethod,
    /// The last screen received from the core.
    pub screen: Screen,
}

/// What a key event asks for.
#[derive(Clone, Copy, Debug, PartialEq, Eq)]
pub struct KeyAction {
    /// The command to send to the core, if any.
    pub command: Option<Risp8Command>,
    /// Whether the front-end is to quit.
    pub quit: bool,
}

/// The keypad key that character `c` stands for. The keypad is laid out
/// on `3 4 5 6`, `E R T Y`, `D F G H`, `C V B N`; `"`, `'`, `(` and `-`
/// are what the digit keys give on some keyboards.
pub open spec fn keypad_spec(c: char) -> Option<usize> {
    if c == 'v' {
        Some(0x0usize)
    } else if c == '3' || c == '"' {
        Some(0x1usize)
    } else if c == '4' || c == '\'' {
        Some(0x2usize)
    } else if c == '5' || c == '(' {
        Some(0x3usize)
    } else if c == 'e' {
        Some(0x4usize)
    } else if c == 'r' {
        Some(0x5usize)
    } else if c == 't' {
        Some(0x6usize)
    } else if c == 'd' {
        Some(0x7usize)
    } else if c == 'f' {
        Some(0x8usize)
    } else if c == 'g' {
        Some(0x9usize)
    } else if c == 'c' {
        Some(0xAusize)
    } else if c == 'b' {
        Some(0xBusize)
    } else if c == '6' || c == '-' {
        Some(0xCusize)
    } else if c == 'y' {
        Some(0xDusize)
    } else if c == 'h' {
        Some(0xEusize)
    } else if c == 'n' {
        Some(0xFusize)
    } else {
        None
    }
}

/// The backend that character `c` selects.
pub open spec fn method_key_spec(c: char) -> Option<ExecutionMethod> {
    if c == 'i' {
        Some(ExecutionMethod::Interpreter)
    } else if c == 'k' {
        Some(ExecutionMethod::CachedInterpreter)
    } else if c == 'l' {
        Some(ExecutionMethod::CachedInterpreter2)
    } else if c == 'm' {
        Some(ExecutionMethod::CachedInterpreter3)
    } else if c == 'j' {
        Some(ExecutionMethod::Jit)
    } else {
        None
    }
}

/// The front-end after key `c` was pressed or released, and what the key
/// asks for. A keypad key gives its state to the core whether pressed or
/// released; the control keys act when pressed only: `q` quits, `p`
/// toggles play and pause, `s` steps once, `i k l m j` select the backend.
pub open spec fn key_spec(app: TuiApp, c: char, pressed: bool) -> (TuiApp, KeyAction) {
    if let Some(key) = keypad_spec(c) {
        (app, KeyAction { command: Some(Risp8Command::SetKey(key, pressed)), quit: false })
    } else if !pressed {
        (app, KeyAction { command: None, quit: false })
    } else if c == 'q' {
        (app, KeyAction { command: None, quit: true })
    } else if c == 'p' {
        (
            TuiApp { is_playing: !app.is_playing, ..app },
            KeyAction {
                command: Some(
                    if app.is_playing {
                        Risp8Command::Pause
                    } else {
                        Risp8Command::Play
                    },
                ),
                quit: false,
            },
        )
    } else if c == 's' {
        (app, KeyAction { command: Some(Risp8Command::SingleStep), quit: false })
    } else if let Some(method) = method_key_spec(c) {
        (
            TuiApp { execution_method: method, ..app },
            KeyAction { command: Some(Risp8Command::SetExecutionMethod(method)), quit: false },
        )
    } else {
        (app, KeyAction { command: None, quit: false })
    }
}

/// The keypad key that character `c` stands for.
pub fn keypad(c: char) -> (key: Option<usize>)
    ensures
        key == keypad_spec(c),
{
    match c {
        'v' => Some(0x0),
        '3' | '"' => Some(0x1),
        '4' | '\'' => Some(0x2),
        '5' | '(' => Some(0x3),
        'e' => Some(0x4),
        'r' => Some(0x5),
        't' => Some(0x6),
        'd' => Some(0x7),
        'f' => Some(0x8),
        'g' => Some(0x9),
        'c' => Some(0xA),
        'b' => Some(0xB),
        '6' | '-' => Some(0xC),
        'y' => Some(0xD),
        'h' => Some(0xE),
        'n' => Some(0xF),
        _ => None,
    }
}

/// The backend that character `c` selects.
pub fn method_key(c: char) -> (method: Option<ExecutionMethod>)
    ensures
        method == method_key_spec(c),
{
    match c {
        'i' => Some(ExecutionMethod::Interpreter),
        'k' => Some(ExecutionMethod::CachedInterpreter),
        'l' => Some(ExecutionMethod::CachedInterpreter2),
        'm' => Some(ExecutionMethod::CachedInterpreter3),
        'j' => Some(ExecutionMethod::Jit),
        _ => None,
    }
}

impl TuiApp {
    /// A front-end that shows a paused core on the interpreter and a
    /// blank screen.
    pub fn new() -> (app: TuiApp)
        ensures
            !app.is_playing,
            app.execution_method == ExecutionMethod::Interpreter,
            crate::state::screen_view(app.screen) == crate::state::blank_screen(),
    {
        let app = TuiApp {
            is_playing: false,
            execution_method: ExecutionMethod::Interpreter,
            screen: [[false; 64]; 32],
        };
        assert(crate::state::screen_view(app.screen) =~~= crate::state::blank_screen());
        app
    }

    /// Takes note of key `c`, pressed or released, and says what it asks for.
    pub fn handle_key(&mut self, c: char, pressed: bool) -> (action: KeyAction)
        ensures
            (*final(self), action) == key_spec(*old(self), c, pressed),
    {
        if let Some(key) = keypad(c) {
            return KeyAction { command: Some(Risp8Command::SetKey(key, pressed)), quit: false };
        }
        if !pressed {
            return KeyAction { command: None, quit: false };
        }
        if c == 'q' {
            KeyAction { command: None, quit: true }
        } else if c == 'p' {
            let command = if self.is_playing {
                Risp8Command::Pause
            } else {
                Risp8Command::Play
            };
            self.is_playing = !self.is_playing;
            KeyAction { command: Some(command), quit: false }
        } else if c == 's' {
            KeyAction { command: Some(Risp8Command::SingleStep), quit: false }
        } else if let Some(method) = method_key(c) {
            self.execution_method = method;
            KeyAction { command: Some(Risp8Command::SetExecutionMethod(method)), quit: false }
        } else {
            KeyAction { command: None, quit: false }
        }
    }

    /// What the title shows for the play state.
    pub fn playing_label(&self) -> (label: &'static str)
        ensures
            label@ == if self.is_playing {
                "Running"@
            } else {
                "Paused"@
            },
    {
        if self.is_playing {
            "Running"
        } else {
            "Paused"
        }
    }

    /// What the title shows for the backend.
    pub fn method_label(&self) -> (label: &'static str)
        ensures
            label@ == match self.execution_method {
                ExecutionMethod::Interpreter => "Interpreter"@,
                ExecutionMethod::CachedInterpreter => "Cached Interpreter 1"@,
                ExecutionMethod::CachedInterpreter2 => "Cached Interpreter 2"@,
                ExecutionMethod::CachedInterpreter3 => "Cached Interpreter 3"@,
                ExecutionMethod::Jit => "JIT"@,
            },
    {
        match self.execution_method {
            ExecutionMethod::Interpreter => "Interpreter",
            ExecutionMethod::CachedInterpreter => "Cached Interpreter 1",
            ExecutionMethod::CachedInterpreter2 => "Cached Interpreter 2",
            ExecutionMethod::CachedInterpreter3 => "Cached Interpreter 3",
            ExecutionMethod::Jit => "JIT",
        }
    }
}

/// Color of a lit pixel: opaque white, as red, green, blue, alpha.
pub const WHITE: [u8; 4] = [0xFF, 0xFF, 0xFF, 0xFF];

/// Color of a dark pixel: opaque black, as red, green, blue, alpha.
pub const BLACK: [u8; 4] = [0x00, 0x00, 0x00, 0xFF];

/// Byte `k` of the picture of `screen`: four bytes per pixel, pixels in
/// row-major order.
pub open spec fn rgba_byte(screen: Seq<Seq<bool>>, k: int) -> u8 {
    if screen[(k / 4) / 64][(k / 4) % 64] {
        WHITE@[k % 4]
    } else {
        BLACK@[k % 4]
    }
}

/// Copies the screen to a buffer of red, green, blue and alpha bytes:
/// each whole group of four bytes becomes the color of one pixel; bytes
/// after the last whole group are left as they are.
pub fn chip8_screen_to_rgba(screen: &Screen, rgba: &mut [u8])
    requires
        old(rgba)@.len() / 4 <= 64 * 32,
    ensures
        final(rgba)@.len() == old(rgba)@.len(),
        forall|k: int|
            0 <= k < old(rgba)@.len() / 4 * 4 ==> #[trigger] final(rgba)@[k] == rgba_byte(
                crate::state::screen_view(*screen),
                k,
            ),
        forall|k: int|
            old(rgba)@.len() / 4 * 4 <= k < old(rgba)@.len() ==> #[trigger] final(rgba)@[k]
                == old(rgba)@[k],
{
    let pixels = rgba.len() / 4;
    let mut i: usize = 0;
    while i < pixels
        invariant
            i <= pixels,
            pixels == old(rgba)@.len() / 4,
            pixels <= 64 * 32,
            rgba@.len() == old(rgba)@.len(),
            forall|k: int|
                0 <= k < i * 4 ==> #[trigger] rgba@[k] == rgba_byte(
                    crate::state::screen_view(*screen),
                    k,
                ),
            forall|k: int| i * 4 <= k < rgba@.len() ==> #[trigger] rgba@[k] == old(rgba)@[k],
        decreases pixels - i,
    {
        let y = i / 64;
        let x = i % 64;
        let lit = screen[y][x];
        let mut b: usize = 0;
        while b < 4
            invariant
                b <= 4,
                i < pixels,
                pixels == old(rgba)@.len() / 4,
                pixels <= 64 * 32,
                y == i / 64,
                x == i % 64,
                lit == crate::state::screen_view(*screen)[y as int][x as int],
                rgba@.len() == old(rgba)@.len(),
                forall|k: int|
                    0 <= k < i * 4 + b ==> #[trigger] rgba@[k] == rgba_byte(
                        crate::state::screen_view(*screen),
                        k,
                    ),
                forall|k: int|
                    i * 4 + b <= k < rgba@.len() ==> #[trigger] rgba@[k] == old(rgba)@[k],
            decreases 4 - b,
        {
            let value = if lit {
                WHITE[b]
            } else {
                BLACK[b]
            };
            rgba[i * 4 + b] = value;
            b += 1;
        }
        i += 1;
    }
}

} // verus!
