//! The core: the machine, the decoder table, the caches of every backend
//! and the clock of the 60 Hz timers.

use std::time::Instant;
use vstd::prelude::*;
use crate::block::{CachedInstruction, InstructionCache};
use crate::cache::{Cache, Caches};
use crate::decoder::Decoder;
use crate::instruction::{Fault, StackWarning, StepView};
use crate::state::{initial_state, set_key_spec, Screen, State, StateView, MAX_PROGRAM_LEN};

verus! {

/// Commands to send to the core.
#[derive(Clone, Copy, Debug, PartialEq, Eq)]
pub enum Risp8Command {
    /// Set a key as pressed (`true`) or released (`false`); keys are numbered 0 to 15.
    SetKey(usize, bool),
    /// Ask for a copy of the screen.
    GetScreen,
    /// Resume emulation.
    Play,
    /// Pause emulation.
    Pause,
    /// Run the execution method once.
    SingleStep,
    /// Set the execution method.
    SetExecutionMethod(ExecutionMethod),
    /// Ask the control loop to end.
    Exit,
}

/// Which backend executes instructions.
#[derive(Clone, Copy, Debug, PartialEq, Eq, Structural)]
pub enum ExecutionMethod {
    Interpreter,
    CachedInterpreter,
    CachedInterpreter2,
    CachedInterpreter3,
    Jit,
}

/// Answers from the core.
#[derive(Clone, Copy, Debug, PartialEq, Eq)]
pub enum Risp8Answer {
    /// A copy of the screen.
    Screen(Screen),
    /// The sound timer is running: emitted at every tick while it is.
    PlaySound,
    /// The sound timer is at rest.
    StopSound,
}

/// Why a core could not be made.
#[derive(Clone, Copy, Debug, PartialEq, Eq, Structural)]
pub enum RomError {
    /// The program has `len` bytes, more than fit in memory.
    TooLarge { len: usize },
}

/// The machine after a timer tick: each timer that is running goes down by one.
pub open spec fn tick_spec(s: StateView) -> StateView {
    StateView {
        delay: if s.delay > 0 {
            (s.delay - 1) as u8
        } else {
            0
        },
        sound: if s.sound > 0 {
            (s.sound - 1) as u8
        } else {
            0
        },
        ..s
    }
}

/// The answer a timer tick emits in state `s`.
pub open spec fn tick_answer(s: StateView) -> Risp8Answer {
    if s.sound > 0 {
        Risp8Answer::PlaySound
    } else {
        Risp8Answer::StopSound
    }
}

/// The machine after the timers were handled, a tick being due or not.
pub open spec fn after_timers(s: StateView, due: bool) -> StateView {
    if due {
        tick_spec(s)
    } else {
        s
    }
}

/// The answer emitted when the timers were handled, a tick being due or not.
pub open spec fn timer_answer(s: StateView, due: bool) -> Option<Risp8Answer> {
    if due {
        Some(tick_answer(s))
    } else {
        None
    }
}

/// Microseconds between two timer ticks.
pub const TICK_MICROS: u128 = 16666;

impl State {
    /// One tick of the 60 Hz timers: decrements each timer that is running
    /// and says whether sound plays.
    pub fn tick(&mut self) -> (answer: Risp8Answer)
        ensures
            final(self)@ == tick_spec(old(self)@),
            answer == tick_answer(old(self)@),
    {
        if self.delay > 0 {
            self.delay -= 1;
        }
        if self.sound > 0 {
            self.sound -= 1;
            Risp8Answer::PlaySound
        } else {
            Risp8Answer::StopSound
        }
    }
}

/// Chip8 core.
pub struct Chip8 {
    /// The guest machine.
    pub state: State,
    /// When the timers last ticked.
    pub timer: Instant,
    /// Whether the control loop steps the machine on its own.
    pub play: bool,
    /// The backend in use.
    pub execution_method: ExecutionMethod,
    /// The decoder table.
    pub decoder: Decoder,
    /// Blocks of the first cached interpreter, one slot per address in
    /// `0x200..0x1000`.
    pub interpreter_caches: Vec<Option<InstructionCache>>,
    /// Blocks of the second cached interpreter: one pool per 16 bytes of
    /// `0x200..0x1000`, 16 slots per pool.
    pub interpreter_caches_2: Vec<Option<[Option<InstructionCache>; 16]>>,
    /// Instructions of the third cached interpreter, one slot per address
    /// in `0x200..0x1000`.
    pub interpreter_caches_3: Vec<Option<CachedInstruction>>,
    /// Blocks of native code of the just-in-time compiler.
    pub jit_caches: Caches,
    /// The stack warning of the last step, if it gave one.
    pub warning: Option<StackWarning>,
}

/// Number of slots of the per-address cache tables.
pub const INTERPRETER_CACHES_LEN: usize = 0xE00;

/// Number of pools of the pooled cache table.
pub const INTERPRETER_CACHES_LEN_2: usize = 0xE0;

/// Number of slots of a pool.
pub const SUBCACHE_SIZE: usize = 16;

/// A table of `n` empty slots.
pub fn empty_slots<T>(n: usize) -> (slots: Vec<Option<T>>)
    ensures
        slots@.len() == n,
        forall|k: int| 0 <= k < n ==> slots@[k] is None,
{
    let mut slots: Vec<Option<T>> = Vec::with_capacity(n);
    let mut k: usize = 0;
    while k < n
        invariant
            k <= n,
            slots@.len() == k,
            forall|j: int| 0 <= j < k ==> slots@[j] is None,
        decreases n - k,
    {
        slots.push(None);
        k += 1;
    }
    slots
}

/// Whether machine `after` and result `r` are what a backend leaves behind
/// when its step came to `out`: on a fault, the machine as the step left
/// it and the fault; else the machine after the timers were handled, and
/// the answer of the tick if one was due.
pub open spec fn core_result(
    out: StepView,
    after: StateView,
    r: Result<Option<Risp8Answer>, Fault>,
) -> bool {
    match r {
        Err(f) => out.fault == Some(f) && after == out.state,
        Ok(answer) => {
            &&& out.fault is None
            &&& after == after_timers(out.state, answer is Some)
            &&& answer == timer_answer(out.state, answer is Some)
        },
    }
}

/// Ticks the timers of `state` if 16 666 microseconds have passed since
/// `timer`, and then restarts the count. Returns the answer of the tick,
/// if there was one.
pub fn handle_timers(state: &mut State, timer: &mut Instant) -> (answer: Option<Risp8Answer>)
    ensures
        final(state)@ == after_timers(old(state)@, answer is Some),
        answer == timer_answer(old(state)@, answer is Some),
        answer is None ==> *final(timer) == *old(timer),
{
    let elapsed = timer.elapsed();
    let answer = state.tick_if_due(elapsed.as_micros());
    if answer.is_some() {
        *timer = Instant::now();
    }
    answer
}

/// Whether a tick is due when `elapsed_micros` microseconds have passed
/// since the last one.
pub open spec fn tick_due(elapsed_micros: u128) -> bool {
    elapsed_micros >= TICK_MICROS
}

impl State {
    /// Ticks the timers once if `elapsed_micros`, the time since the last
    /// tick, has reached 16 666 microseconds, however far beyond it is,
    /// and returns the answer of the tick. Does nothing before that.
    pub fn tick_if_due(&mut self, elapsed_micros: u128) -> (answer: Option<Risp8Answer>)
        ensures
            answer is Some <==> tick_due(elapsed_micros),
            final(self)@ == after_timers(old(self)@, tick_due(elapsed_micros)),
            answer == timer_answer(old(self)@, tick_due(elapsed_micros)),
    {
        if elapsed_micros >= TICK_MICROS {
            Some(self.tick())
        } else {
            None
        }
    }
}

impl Chip8 {
    /// Whether the cache tables have the size they are made with: one
    /// slot per address, one pool per 16 addresses.
    pub open spec fn wf(&self) -> bool {
        &&& self.interpreter_caches@.len() == INTERPRETER_CACHES_LEN
        &&& self.interpreter_caches_2@.len() == INTERPRETER_CACHES_LEN_2
        &&& self.interpreter_caches_3@.len() == INTERPRETER_CACHES_LEN
    }

    /// Whether no backend has anything cached.
    pub open spec fn caches_empty(&self) -> bool {
        &&& forall|k: int|
            0 <= k < self.interpreter_caches@.len() ==> self.interpreter_caches@[k] is None
        &&& forall|k: int|
            0 <= k < self.interpreter_caches_2@.len() ==> self.interpreter_caches_2@[k] is None
        &&& forall|k: int|
            0 <= k < self.interpreter_caches_3@.len() ==> self.interpreter_caches_3@[k] is None
        &&& self.jit_caches.caches@ == Seq::<Cache>::empty()
    }

    /// Creates a core with `program` loaded at `0x200`, paused, on the
    /// interpreter. A program longer than `MAX_PROGRAM_LEN` is rejected.
    pub fn new(program: &[u8]) -> (r: Result<Chip8, RomError>)
        ensures
            r is Ok <==> program@.len() <= MAX_PROGRAM_LEN,
            r matches Err(e) ==> e == (RomError::TooLarge { len: program@.len() as usize }),
            r matches Ok(core) ==> {
                &&& core.wf()
                &&& core.state@ == initial_state(program@)
                &&& !core.play
                &&& core.execution_method == ExecutionMethod::Interpreter
                &&& core.caches_empty()
                &&& core.warning is None
            },
    {
        if program.len() > MAX_PROGRAM_LEN {
            return Err(RomError::TooLarge { len: program.len() });
        }
        Ok(
            Chip8 {
                state: State::new(program),
                timer: Instant::now(),
                play: false,
                execution_method: ExecutionMethod::Interpreter,
                decoder: Decoder::new(),
                interpreter_caches: empty_slots(INTERPRETER_CACHES_LEN),
                interpreter_caches_2: empty_slots(INTERPRETER_CACHES_LEN_2),
                interpreter_caches_3: empty_slots(INTERPRETER_CACHES_LEN),
                jit_caches: Caches::new(),
                warning: None,
            },
        )
    }
}

/// What the control loop has to do after a command was handled.
#[derive(Clone, Copy, Debug, PartialEq, Eq)]
pub enum CommandOutcome {
    /// Nothing to send; go on.
    Continue,
    /// Send this answer; go on.
    Answer(Risp8Answer),
    /// A step ran and met this fault.
    Faulted(Fault),
    /// A step is asked for and the just-in-time compiler is selected:
    /// the caller runs the native step.
    Native,
    /// End the loop.
    Exit,
}

/// What one step of the selected backend leaves behind.
pub open spec fn single_step_post(
    before: Chip8,
    after: Chip8,
    r: Option<Result<Option<Risp8Answer>, Fault>>,
) -> bool {
    &&& after.play == before.play
    &&& after.execution_method == before.execution_method
    &&& after.decoder == before.decoder
    &&& after.jit_caches == before.jit_caches
    &&& match r {
        None => before.execution_method == ExecutionMethod::Jit && after == before,
        Some(stepped) => match before.execution_method {
            ExecutionMethod::Interpreter => crate::interpreter::interpreter_post(
                before,
                after,
                stepped,
            ),
            ExecutionMethod::CachedInterpreter => crate::cached_interpreter::cached_post(
                before,
                after,
                stepped,
            ),
            ExecutionMethod::CachedInterpreter2 => crate::cached_interpreter_2::cached_2_post(
                before,
                after,
                stepped,
            ),
            ExecutionMethod::CachedInterpreter3 => crate::cached_interpreter_3::cached_3_post(
                before,
                after,
                stepped,
            ),
            ExecutionMethod::Jit => false,
        },
    }
}

impl Chip8 {
    /// Runs the selected backend once. The just-in-time compiler runs
    /// native code, which this library does not hold: with it selected,
    /// nothing is done here and `None` is returned.
    pub fn single_step(&mut self) -> (r: Option<Result<Option<Risp8Answer>, Fault>>)
        ensures
            old(self).wf() ==> final(self).wf(),
            single_step_post(*old(self), *final(self), r),
    {
        match self.execution_method {
            ExecutionMethod::Interpreter => Some(self.interpreter()),
            ExecutionMethod::CachedInterpreter => Some(self.cached_interpreter()),
            ExecutionMethod::CachedInterpreter2 => Some(self.cached_interpreter_2()),
            ExecutionMethod::CachedInterpreter3 => Some(self.cached_interpreter_3()),
            ExecutionMethod::Jit => None,
        }
    }
}

/// What the control loop is told after a step gave `stepped`.
pub open spec fn step_outcome(stepped: Option<Result<Option<Risp8Answer>, Fault>>) -> CommandOutcome {
    match stepped {
        None => CommandOutcome::Native,
        Some(Err(fault)) => CommandOutcome::Faulted(fault),
        Some(Ok(Some(answer))) => CommandOutcome::Answer(answer),
        Some(Ok(None)) => CommandOutcome::Continue,
    }
}

/// Whether two cores differ at most in their machine.
pub open spec fn same_but_state(a: Chip8, b: Chip8) -> bool {
    &&& a.timer == b.timer
    &&& a.play == b.play
    &&& a.execution_method == b.execution_method
    &&& a.decoder == b.decoder
    &&& a.interpreter_caches == b.interpreter_caches
    &&& a.interpreter_caches_2 == b.interpreter_caches_2
    &&& a.interpreter_caches_3 == b.interpreter_caches_3
    &&& a.jit_caches == b.jit_caches
    &&& a.warning == b.warning
}

/// What handling command `cmd` does to the core and tells the control loop.
pub open spec fn command_post(
    before: Chip8,
    after: Chip8,
    cmd: Risp8Command,
    outcome: CommandOutcome,
) -> bool {
    match cmd {
        Risp8Command::SetKey(key, pressed) => {
            &&& outcome == CommandOutcome::Continue
            &&& after.state@ == set_key_spec(before.state@, key as int, pressed)
            &&& same_but_state(before, after)
        },
        Risp8Command::GetScreen => {
            &&& outcome == CommandOutcome::Answer(Risp8Answer::Screen(before.state.screen))
            &&& after == before
        },
        Risp8Command::Play => {
            &&& outcome == CommandOutcome::Continue
            &&& after == (Chip8 { play: true, ..before })
        },
        Risp8Command::Pause => {
            &&& outcome == CommandOutcome::Continue
            &&& after == (Chip8 { play: false, ..before })
        },
        Risp8Command::SingleStep => exists|stepped: Option<Result<Option<Risp8Answer>, Fault>>|
            {
                &&& #[trigger] single_step_post(before, after, stepped)
                &&& outcome == step_outcome(stepped)
            },
        Risp8Command::SetExecutionMethod(method) => {
            &&& outcome == CommandOutcome::Continue
            &&& after == (Chip8 { execution_method: method, ..before })
        },
        Risp8Command::Exit => {
            &&& outcome == CommandOutcome::Exit
            &&& after == before
        },
    }
}

impl Chip8 {
    /// Applies one command from the host and says what the control loop
    /// has to do next: send an answer, report a fault, run a native step,
    /// end, or just go on.
    pub fn handle_command(&mut self, cmd: Risp8Command) -> (outcome: CommandOutcome)
        ensures
            old(self).wf() ==> final(self).wf(),
            command_post(*old(self), *final(self), cmd, outcome),
    {
        match cmd {
            Risp8Command::SetKey(key, pressed) => {
                self.state.set_key(key, pressed);
                CommandOutcome::Continue
            },
            Risp8Command::GetScreen => CommandOutcome::Answer(
                Risp8Answer::Screen(self.state.screen),
            ),
            Risp8Command::Play => {
                self.play = true;
                CommandOutcome::Continue
            },
            Risp8Command::Pause => {
                self.play = false;
                CommandOutcome::Continue
            },
            Risp8Command::SingleStep => {
                let stepped = self.single_step();
                assert(single_step_post(*old(self), *self, stepped));
                match stepped {
                    None => CommandOutcome::Native,
                    Some(Err(fault)) => CommandOutcome::Faulted(fault),
                    Some(Ok(Some(answer))) => CommandOutcome::Answer(answer),
                    Some(Ok(None)) => CommandOutcome::Continue,
                }
            },
            Risp8Command::SetExecutionMethod(method) => {
                self.execution_method = method;
                CommandOutcome::Continue
            },
            Risp8Command::Exit => CommandOutcome::Exit,
        }
    }
}

} // verus!
