use risp8::chip8::{Chip8, ExecutionMethod, Risp8Command, CommandOutcome};
use risp8::instruction::{Fault, StackWarning};
use risp8::state::WaitKey;

fn core_with(program: &[u8], method: ExecutionMethod) -> Chip8 {
    let mut core = Chip8::new(program).unwrap_or_else(|_| panic!("program too large"));
    core.execution_method = method;
    core
}

fn step_ok(core: &mut Chip8) {
    match core.single_step() {
        Some(Ok(_)) => (),
        Some(Err(fault)) => panic!("fault {:?}", fault),
        None => panic!("no backend ran"),
    }
}

const FAMILY: [ExecutionMethod; 4] = [
    ExecutionMethod::Interpreter,
    ExecutionMethod::CachedInterpreter,
    ExecutionMethod::CachedInterpreter2,
    ExecutionMethod::CachedInterpreter3,
];

#[test]
fn load_add_jump_with_interpreter() {
    let mut core = core_with(&[0x60, 0x05, 0x70, 0x03, 0x12, 0x00], ExecutionMethod::Interpreter);
    step_ok(&mut core);
    assert_eq!(core.state.v[0], 5);
    assert_eq!(core.state.pc, 0x202);
    step_ok(&mut core);
    assert_eq!(core.state.v[0], 8);
    assert_eq!(core.state.pc, 0x204);
    step_ok(&mut core);
    assert_eq!(core.state.v[0], 8);
    assert_eq!(core.state.pc, 0x200);
}

#[test]
fn load_add_jump_is_one_block() {
    for method in [ExecutionMethod::CachedInterpreter, ExecutionMethod::CachedInterpreter2] {
        let mut core = core_with(&[0x60, 0x05, 0x70, 0x03, 0x12, 0x00], method);
        step_ok(&mut core);
        assert_eq!(core.state.v[0], 8);
        assert_eq!(core.state.pc, 0x200);
        core.state.v[0] = 0x77;
        step_ok(&mut core);
        assert_eq!(core.state.v[0], 8);
        assert_eq!(core.state.pc, 0x200);
    }
}

#[test]
fn load_add_jump_with_instruction_cache() {
    let mut core = core_with(
        &[0x60, 0x05, 0x70, 0x03, 0x12, 0x00],
        ExecutionMethod::CachedInterpreter3,
    );
    for _ in 0..3 {
        step_ok(&mut core);
    }
    assert_eq!(core.state.v[0], 8);
    assert_eq!(core.state.pc, 0x200);
    assert!(core.interpreter_caches_3[0].is_some());
    assert!(core.interpreter_caches_3[2].is_some());
    assert!(core.interpreter_caches_3[4].is_some());
    assert!(core.interpreter_caches_3[1].is_none());
    step_ok(&mut core);
    step_ok(&mut core);
    assert_eq!(core.state.v[0], 8);
    assert_eq!(core.state.pc, 0x204);
}

#[test]
fn store_registers_clears_block_of_slot_0x200() {
    // A208 F155 0000 0000 DEADBEEF
    let program = [0xA2, 0x08, 0xF1, 0x55, 0x00, 0x00, 0x00, 0x00, 0xDE, 0xAD, 0xBE, 0xEF];
    let mut core = core_with(&program, ExecutionMethod::CachedInterpreter);
    core.state.v[0] = 0x11;
    core.state.v[1] = 0x22;
    // A block that covers 0x200..0x20A, as if it had been built over the data.
    let mut wide = core.new_cache_block().unwrap_or_else(|_| panic!("no block"));
    assert_eq!(wide.pc, 0x200);
    assert_eq!(wide.end_pc, 0x204);
    assert_eq!(wide.instructions.len(), 2);
    wide.end_pc = 0x20A;
    core.interpreter_caches[0] = Some(wide);
    step_ok(&mut core);
    assert_eq!(core.state.i, 0x208);
    assert_eq!(core.state.memory[0x208], 0x11);
    assert_eq!(core.state.memory[0x209], 0x22);
    assert_eq!(core.state.pc, 0x204);
    assert!(core.interpreter_caches[0].is_none());
}

#[test]
fn store_registers_keeps_block_outside_the_range() {
    let program = [0xA2, 0x08, 0xF1, 0x55, 0x00, 0x00, 0x00, 0x00, 0xDE, 0xAD, 0xBE, 0xEF];
    let mut core = core_with(&program, ExecutionMethod::CachedInterpreter);
    step_ok(&mut core);
    assert_eq!(core.state.memory[0x208], 0);
    assert_eq!(core.state.memory[0x209], 0);
    // The block is 0x200..0x204 and the range is 0x208..=0x209: the block stays.
    assert!(core.interpreter_caches[0].is_some());
}

#[test]
fn store_registers_on_every_backend() {
    let program = [0xA2, 0x08, 0xF1, 0x55, 0x00, 0x00, 0x00, 0x00, 0xDE, 0xAD, 0xBE, 0xEF];
    for method in FAMILY {
        let mut core = core_with(&program, method);
        core.state.v[0] = 0x11;
        core.state.v[1] = 0x22;
        while core.state.pc != 0x204 {
            step_ok(&mut core);
        }
        assert_eq!(core.state.memory[0x208], 0x11);
        assert_eq!(core.state.memory[0x209], 0x22);
        assert_eq!(core.state.memory[0x20A], 0xBE);
    }
}

#[test]
fn store_below_the_program_area() {
    // A100 F155 1204: the registers are stored at 0x100, where no address has a slot.
    for method in FAMILY {
        let mut core = core_with(&[0xA1, 0x00, 0xF1, 0x55, 0x12, 0x04], method);
        core.state.v[0] = 0x11;
        core.state.v[1] = 0x22;
        while core.state.pc != 0x204 {
            step_ok(&mut core);
        }
        assert_eq!(core.state.memory[0x100], 0x11);
        assert_eq!(core.state.memory[0x101], 0x22);
        assert_eq!(core.state.memory[0x102], 0);
        assert_eq!(core.state.i, 0x100);
        step_ok(&mut core);
        assert_eq!(core.state.pc, 0x204);
    }
    let mut core =
        core_with(&[0xA1, 0x00, 0xF1, 0x55, 0x12, 0x04], ExecutionMethod::CachedInterpreter3);
    core.state.v[0] = 0x11;
    core.state.v[1] = 0x22;
    step_ok(&mut core);
    step_ok(&mut core);
    assert!(core.interpreter_caches_3[0].is_some());
    assert!(core.interpreter_caches_3[2].is_some());
    // Across the start of the program area: 0x1FF and 0x200 are written, slot 0 is cleared.
    core.state.pc = 0x202;
    core.state.i = 0x1FF;
    step_ok(&mut core);
    assert_eq!(core.state.memory[0x1FF], 0x11);
    assert_eq!(core.state.memory[0x200], 0x22);
    assert!(core.interpreter_caches_3[0].is_none());
    assert!(core.interpreter_caches_3[2].is_some());
}

#[test]
fn stack_limits_are_warned_of_on_every_backend() {
    // V0 = 1; return on an empty stack; jump to self.
    for method in FAMILY {
        let mut core = core_with(&[0x60, 0x01, 0x00, 0xEE, 0x12, 0x04], method);
        assert_eq!(core.warning, None);
        while core.state.pc != 0x204 {
            step_ok(&mut core);
        }
        assert_eq!(core.warning, Some(StackWarning::Underflow), "{:?}", method);
        assert_eq!(core.state.sp, 0);
        // The next step gives none: the warning is that of the last step.
        step_ok(&mut core);
        assert_eq!(core.warning, None);
        // A key event is no step and leaves the warning.
        core.warning = Some(StackWarning::Overflow);
        core.handle_command(Risp8Command::SetKey(1, true));
        assert_eq!(core.warning, Some(StackWarning::Overflow));
    }
    // Calls down to depth 15, then one more.
    for method in FAMILY {
        let mut core = core_with(&[0x22, 0x00], method);
        for depth in 1..=15 {
            step_ok(&mut core);
            assert_eq!(core.state.sp, depth);
            assert_eq!(core.warning, None);
        }
        step_ok(&mut core);
        assert_eq!(core.state.sp, 15);
        assert_eq!(core.state.pc, 0x202);
        assert_eq!(core.warning, Some(StackWarning::Overflow), "{:?}", method);
    }
    // A fault leaves no warning.
    for method in FAMILY {
        let mut core = core_with(&[0x00, 0xEE, 0xFF, 0xFF], method);
        step_ok(&mut core);
        assert_eq!(core.warning, Some(StackWarning::Underflow));
        assert!(matches!(core.single_step(), Some(Err(_))));
        assert_eq!(core.warning, None);
    }
}

#[test]
fn shift_right_sets_flag_to_bit_shifted_out() {
    for method in FAMILY {
        let mut core = core_with(&[0x60, 0x05, 0x80, 0x06, 0x12, 0x04], method);
        while core.state.pc != 0x204 {
            step_ok(&mut core);
        }
        assert_eq!(core.state.v[0], 2);
        assert_eq!(core.state.v[0xF], 1);
    }
}

#[test]
fn font_address_and_draw_origin() {
    // 6010 F029 D015
    for method in FAMILY {
        let mut core = core_with(&[0x60, 0x10, 0xF0, 0x29, 0xD0, 0x15, 0x12, 0x06], method);
        while core.state.pc != 0x206 {
            step_ok(&mut core);
        }
        assert_eq!(core.state.v[0], 0x10);
        assert_eq!(core.state.i, 80);
        // Rows 80..85 follow the font and are blank: nothing is lit.
        for y in 0..32 {
            for x in 0..64 {
                assert!(!core.state.screen[y][x]);
            }
        }
        assert_eq!(core.state.v[0xF], 0);
    }
}

#[test]
fn digit_zero_glyph_is_drawn() {
    // 6000 F029 6110 D105: the sprite of digit 0 at column 16, row 0.
    for method in FAMILY {
        let mut core = core_with(
            &[0x60, 0x00, 0xF0, 0x29, 0x61, 0x10, 0x62, 0x00, 0xD1, 0x25, 0x12, 0x0A],
            method,
        );
        while core.state.pc != 0x20A {
            step_ok(&mut core);
        }
        assert_eq!(core.state.i, 0);
        let glyph = [0xF0u8, 0x90, 0x90, 0x90, 0xF0];
        for y in 0..32 {
            for x in 0..64 {
                let lit = y < 5 && (16..24).contains(&x) && glyph[y] & (0x80 >> (x - 16)) != 0;
                assert_eq!(core.state.screen[y][x], lit, "pixel {} {}", x, y);
            }
        }
    }
}

#[test]
fn wait_key_loops_until_press_and_release() {
    for method in FAMILY {
        let mut core = core_with(&[0xF0, 0x0A], method);
        for _ in 0..3 {
            step_ok(&mut core);
            assert_eq!(core.state.pc, 0x200);
            assert_eq!(core.state.wait_key, WaitKey::Waiting);
        }
        assert_eq!(core.handle_command(Risp8Command::SetKey(7, true)), CommandOutcome::Continue);
        step_ok(&mut core);
        assert_eq!(core.state.pc, 0x200);
        assert_eq!(core.handle_command(Risp8Command::SetKey(7, false)), CommandOutcome::Continue);
        assert_eq!(core.state.wait_key, WaitKey::Key(7));
        step_ok(&mut core);
        assert_eq!(core.state.v[0], 7);
        assert_eq!(core.state.pc, 0x202);
        assert_eq!(core.state.wait_key, WaitKey::NotWaiting);
    }
}

#[test]
fn call_and_return() {
    // 2204 0000 00EE
    for method in FAMILY {
        let mut core = core_with(&[0x22, 0x04, 0x00, 0x00, 0x00, 0xEE], method);
        step_ok(&mut core);
        assert_eq!(core.state.pc, 0x204);
        assert_eq!(core.state.sp, 1);
        assert_eq!(core.state.stack[0], 0x202);
        step_ok(&mut core);
        assert_eq!(core.state.pc, 0x202);
        assert_eq!(core.state.sp, 0);
    }
}

#[test]
fn backends_agree_on_a_program() {
    // A loop that counts, draws digits and stores registers.
    let program = [
        0x60, 0x00, // V0 = 0
        0x61, 0x03, // V1 = 3
        0x62, 0x02, // V2 = 2
        0xF0, 0x29, // I = font(V0)
        0xD1, 0x25, // draw at (V1, V2)
        0x70, 0x01, // V0 += 1
        0x71, 0x05, // V1 += 5
        0x30, 0x0A, // skip if V0 == 10
        0x12, 0x06, // loop
        0xA3, 0x00, // I = 0x300
        0xF2, 0x55, // store V0..V2
        0xF0, 0x33, // bcd of V0
        0x12, 0x18, // spin
    ];
    let mut reference = core_with(&program, ExecutionMethod::Interpreter);
    while reference.state.pc != 0x218 {
        step_ok(&mut reference);
    }
    assert_eq!(reference.state.v[0], 10);
    assert_eq!(&reference.state.memory[0x300..0x303], &[0, 1, 0]);
    for method in FAMILY {
        let mut core = core_with(&program, method);
        while core.state.pc != 0x218 {
            step_ok(&mut core);
        }
        assert_eq!(core.state.v, reference.state.v);
        assert_eq!(core.state.i, reference.state.i);
        assert_eq!(core.state.sp, reference.state.sp);
        assert_eq!(core.state.memory[..], reference.state.memory[..]);
        assert_eq!(core.state.screen, reference.state.screen);
    }
}

#[test]
fn block_that_runs_off_memory_is_a_fault() {
    let mut core = core_with(&[], ExecutionMethod::CachedInterpreter);
    core.state.memory[0xFFE] = 0x6A;
    core.state.memory[0xFFF] = 0x42;
    core.state.pc = 0xFFE;
    assert!(matches!(core.single_step(), Some(Err(Fault::OutOfRange { pc: 0x1000 }))));
    assert_eq!(core.state.v[0xA], 0);
    assert_eq!(core.state.pc, 0xFFE);
    // With a jump in the last word the block ends in memory.
    core.state.memory[0xFFE] = 0x12;
    core.state.memory[0xFFF] = 0x00;
    step_ok(&mut core);
    assert_eq!(core.state.pc, 0x200);
}

#[test]
fn last_instruction_address_holds_a_whole_word() {
    for method in [
        ExecutionMethod::Interpreter,
        ExecutionMethod::CachedInterpreter2,
        ExecutionMethod::CachedInterpreter3,
    ] {
        let mut core = core_with(&[], method);
        core.state.memory[0xFFE] = 0x6A;
        core.state.memory[0xFFF] = 0x42;
        core.state.pc = 0xFFE;
        step_ok(&mut core);
        assert_eq!(core.state.v[0xA], 0x42);
        assert_eq!(core.state.pc, 0x1000);
    }
}

#[test]
fn fetch_past_memory_is_a_fault() {
    let mut core = core_with(&[], ExecutionMethod::Interpreter);
    core.state.pc = 0xFFF;
    assert!(matches!(core.single_step(), Some(Err(Fault::OutOfRange { pc: 0xFFF }))));
    assert_eq!(core.state.pc, 0xFFF);
    let mut core = core_with(&[], ExecutionMethod::CachedInterpreter3);
    core.state.pc = 0xFFF;
    assert!(matches!(core.single_step(), Some(Err(Fault::OutOfRange { pc: 0xFFF }))));
}

#[test]
fn invalid_opcode_is_a_fault_on_every_backend() {
    for method in FAMILY {
        let mut core = core_with(&[0x60, 0x01, 0xFF, 0xFF], method);
        step_ok(&mut core);
        assert_eq!(core.state.v[0], 1);
        assert_eq!(core.state.pc, 0x202);
        assert!(matches!(
            core.single_step(),
            Some(Err(Fault::InvalidOpcode { opcode: 0xFFFF, pc: 0x202 }))
        ));
        assert_eq!(core.state.pc, 0x202);
    }
}

#[test]
fn cached_backends_have_no_slot_below_0x200() {
    for method in [
        ExecutionMethod::CachedInterpreter,
        ExecutionMethod::CachedInterpreter2,
        ExecutionMethod::CachedInterpreter3,
    ] {
        let mut core = core_with(&[0x11, 0x00], method);
        core.state.memory[0x100] = 0x60;
        core.state.memory[0x101] = 0x01;
        step_ok(&mut core);
        assert_eq!(core.state.pc, 0x100);
        assert!(matches!(core.single_step(), Some(Err(Fault::NoCacheSlot { pc: 0x100 }))));
    }
    let mut core = core_with(&[0x11, 0x00], ExecutionMethod::Interpreter);
    core.state.memory[0x100] = 0x60;
    core.state.memory[0x101] = 0x01;
    step_ok(&mut core);
    step_ok(&mut core);
    assert_eq!(core.state.v[0], 1);
}

#[test]
fn jit_is_left_to_the_caller() {
    let mut core = core_with(&[0x60, 0x05], ExecutionMethod::Jit);
    assert!(core.single_step().is_none());
    assert_eq!(core.state.pc, 0x200);
    assert_eq!(core.handle_command(Risp8Command::SingleStep), CommandOutcome::Native);
}
