use risp8::chip8::{handle_timers, Chip8, Risp8Answer, RomError};
use risp8::decoder::{
    generate_decoder, generate_opcodes, slice_to_array, slice_to_usize, Decoder,
};
use risp8::instruction::{control, Control, Fault, Handler};
use risp8::interpreter::{decode, is_block_end};
use risp8::opcode::Opcode;
use risp8::state::{State, WaitKey, FONT, MAX_PROGRAM_LEN};

fn machine() -> State {
    let mut s = State::new(&[]);
    s.pc = 0x202;
    s
}

#[test]
fn initial_state() {
    let s = State::new(&[0xAB, 0xCD, 0xEF]);
    assert_eq!(s.sp, 0);
    assert_eq!(s.pc, 0x200);
    assert_eq!(s.i, 0);
    assert_eq!(s.stack, [0; 16]);
    assert_eq!(s.v, [0; 16]);
    assert_eq!(s.delay, 0);
    assert_eq!(s.sound, 0);
    assert_eq!(s.keys, [false; 16]);
    assert_eq!(s.wait_key, WaitKey::NotWaiting);
    assert_eq!(s.screen, [[false; 64]; 32]);
    assert_eq!(&s.memory[0..80], &FONT[..]);
    assert!(s.memory[80..0x200].iter().all(|b| *b == 0));
    assert_eq!(&s.memory[0x200..0x203], &[0xAB, 0xCD, 0xEF]);
    assert!(s.memory[0x203..].iter().all(|b| *b == 0));
}

#[test]
fn font_of_digit_zero_and_f() {
    let memory = State::new_memory(&[]);
    assert_eq!(&memory[0..5], &[0xF0, 0x90, 0x90, 0x90, 0xF0]);
    assert_eq!(&memory[75..80], &[0xF0, 0x80, 0xF0, 0x80, 0x80]);
}

#[test]
fn largest_program_fills_memory() {
    let program = vec![0x5A; MAX_PROGRAM_LEN];
    let s = State::new(&program);
    assert_eq!(s.memory[0x200], 0x5A);
    assert_eq!(s.memory[0xFFF], 0x5A);
    assert!(Chip8::new(&program).is_ok());
}

#[test]
fn program_too_large_is_rejected() {
    let program = vec![0; MAX_PROGRAM_LEN + 1];
    match Chip8::new(&program) {
        Err(e) => assert_eq!(e, RomError::TooLarge { len: 3585 }),
        Ok(_) => panic!("accepted"),
    }
}

#[test]
fn new_core_is_paused_on_the_interpreter() {
    let core = Chip8::new(&[0x12, 0x00]).unwrap_or_else(|_| panic!("rejected"));
    assert!(!core.play);
    assert_eq!(core.execution_method, risp8::chip8::ExecutionMethod::Interpreter);
    assert_eq!(core.state.memory[0x200], 0x12);
    assert_eq!(core.interpreter_caches.len(), 0xE00);
    assert!(core.interpreter_caches.iter().all(|c| c.is_none()));
    assert_eq!(core.interpreter_caches_2.len(), 0xE0);
    assert!(core.interpreter_caches_2.iter().all(|c| c.is_none()));
    assert_eq!(core.interpreter_caches_3.len(), 0xE00);
    assert!(core.interpreter_caches_3.iter().all(|c| c.is_none()));
    assert!(core.jit_caches.caches.is_empty());
}

#[test]
fn clear_screen_instruction() {
    let mut s = machine();
    s.screen[3][7] = true;
    s.screen[31][63] = true;
    assert_eq!(s.execute_00E0(Opcode(0x00E0)), 0);
    assert_eq!(s.screen, [[false; 64]; 32]);
    assert_eq!(s.pc, 0x202);
}

#[test]
fn return_pops_the_stack() {
    let mut s = machine();
    s.stack[0] = 0x300;
    s.stack[1] = 0x400;
    s.sp = 2;
    assert_eq!(s.execute_00EE(Opcode(0x00EE)), 1);
    assert_eq!(s.sp, 1);
    assert_eq!(s.pc, 0x400);
}

#[test]
fn return_on_empty_stack_does_nothing() {
    let mut s = machine();
    assert_eq!(s.execute_00EE(Opcode(0x00EE)), 1);
    assert_eq!(s.sp, 0);
    assert_eq!(s.pc, 0x202);
}

#[test]
fn jump_instruction() {
    let mut s = machine();
    assert_eq!(s.execute_1nnn(Opcode(0x1ABC)), 1);
    assert_eq!(s.pc, 0xABC);
}

#[test]
fn call_pushes_the_return_address() {
    let mut s = machine();
    assert_eq!(s.execute_2nnn(Opcode(0x2345)), 1);
    assert_eq!(s.sp, 1);
    assert_eq!(s.stack[0], 0x202);
    assert_eq!(s.pc, 0x345);
}

#[test]
fn call_at_depth_15_does_nothing() {
    let mut s = machine();
    s.sp = 14;
    assert_eq!(s.execute_2nnn(Opcode(0x2345)), 1);
    assert_eq!(s.sp, 15);
    assert_eq!(s.stack[14], 0x202);
    s.pc = 0x400;
    assert_eq!(s.execute_2nnn(Opcode(0x2678)), 1);
    assert_eq!(s.sp, 15);
    assert_eq!(s.pc, 0x400);
    assert_eq!(s.stack[15], 0);
}

#[test]
fn skips_on_registers_and_constants() {
    let mut s = machine();
    s.v[1] = 0x22;
    s.v[2] = 0x22;
    s.v[3] = 0x33;
    assert_eq!(s.execute_3xkk(Opcode(0x3122)), 1);
    assert_eq!(s.pc, 0x204);
    assert_eq!(s.execute_3xkk(Opcode(0x3123)), 0);
    assert_eq!(s.pc, 0x204);
    assert_eq!(s.execute_4xkk(Opcode(0x4123)), 1);
    assert_eq!(s.pc, 0x206);
    assert_eq!(s.execute_4xkk(Opcode(0x4122)), 0);
    assert_eq!(s.pc, 0x206);
    assert_eq!(s.execute_5xy0(Opcode(0x5120)), 1);
    assert_eq!(s.pc, 0x208);
    assert_eq!(s.execute_5xy0(Opcode(0x5130)), 0);
    assert_eq!(s.pc, 0x208);
    assert_eq!(s.execute_9xy0(Opcode(0x9130)), 1);
    assert_eq!(s.pc, 0x20A);
    assert_eq!(s.execute_9xy0(Opcode(0x9120)), 0);
    assert_eq!(s.pc, 0x20A);
}

#[test]
fn program_counter_wraps_at_16_bits() {
    let mut s = machine();
    s.pc = 0xFFFF;
    assert_eq!(s.execute_3xkk(Opcode(0x3000)), 1);
    assert_eq!(s.pc, 1);
}

#[test]
fn load_and_add_constants() {
    let mut s = machine();
    assert_eq!(s.execute_6xkk(Opcode(0x6AFE)), 0);
    assert_eq!(s.v[0xA], 0xFE);
    assert_eq!(s.execute_7xkk(Opcode(0x7A03)), 0);
    assert_eq!(s.v[0xA], 0x01);
    assert_eq!(s.v[0xF], 0);
}

#[test]
fn register_moves_and_logic() {
    let mut s = machine();
    s.v[1] = 0b1100;
    s.v[2] = 0b1010;
    assert_eq!(s.execute_8xy0(Opcode(0x8320)), 0);
    assert_eq!(s.v[3], 0b1010);
    assert_eq!(s.execute_8xy1(Opcode(0x8121)), 0);
    assert_eq!(s.v[1], 0b1110);
    s.v[1] = 0b1100;
    assert_eq!(s.execute_8xy2(Opcode(0x8122)), 0);
    assert_eq!(s.v[1], 0b1000);
    s.v[1] = 0b1100;
    assert_eq!(s.execute_8xy3(Opcode(0x8123)), 0);
    assert_eq!(s.v[1], 0b0110);
}

#[test]
fn add_registers_sets_carry() {
    let mut s = machine();
    s.v[1] = 200;
    s.v[2] = 100;
    assert_eq!(s.execute_8xy4(Opcode(0x8124)), 0);
    assert_eq!(s.v[1], 44);
    assert_eq!(s.v[0xF], 1);
    s.v[1] = 100;
    s.v[2] = 155;
    s.execute_8xy4(Opcode(0x8124));
    assert_eq!(s.v[1], 255);
    assert_eq!(s.v[0xF], 0);
}

#[test]
fn flag_wins_when_it_is_the_destination() {
    let mut s = machine();
    s.v[0xF] = 200;
    s.v[2] = 100;
    s.execute_8xy4(Opcode(0x8F24));
    assert_eq!(s.v[0xF], 1);
}

#[test]
fn subtract_registers_sets_not_borrow() {
    let mut s = machine();
    s.v[1] = 5;
    s.v[2] = 7;
    assert_eq!(s.execute_8xy5(Opcode(0x8125)), 0);
    assert_eq!(s.v[1], 254);
    assert_eq!(s.v[0xF], 0);
    s.v[1] = 7;
    s.v[2] = 7;
    s.execute_8xy5(Opcode(0x8125));
    assert_eq!(s.v[1], 0);
    assert_eq!(s.v[0xF], 1);
    s.v[1] = 5;
    s.v[2] = 7;
    assert_eq!(s.execute_8xy7(Opcode(0x8127)), 0);
    assert_eq!(s.v[1], 2);
    assert_eq!(s.v[0xF], 1);
    s.v[1] = 9;
    s.v[2] = 7;
    s.execute_8xy7(Opcode(0x8127));
    assert_eq!(s.v[1], 254);
    assert_eq!(s.v[0xF], 0);
}

#[test]
fn shifts_work_on_register_x() {
    let mut s = machine();
    s.v[1] = 0b1000_0101;
    s.v[2] = 0xFF;
    assert_eq!(s.execute_8xy6(Opcode(0x8126)), 0);
    assert_eq!(s.v[1], 0b0100_0010);
    assert_eq!(s.v[0xF], 1);
    assert_eq!(s.v[2], 0xFF);
    s.v[1] = 0b1000_0101;
    assert_eq!(s.execute_8xyE(Opcode(0x812E)), 0);
    assert_eq!(s.v[1], 0b0000_1010);
    assert_eq!(s.v[0xF], 1);
    s.v[1] = 0b0100_0000;
    s.execute_8xyE(Opcode(0x812E));
    assert_eq!(s.v[1], 0b1000_0000);
    assert_eq!(s.v[0xF], 0);
    s.v[1] = 4;
    s.execute_8xy6(Opcode(0x8126));
    assert_eq!(s.v[1], 2);
    assert_eq!(s.v[0xF], 0);
}

#[test]
fn address_register_instructions() {
    let mut s = machine();
    assert_eq!(s.execute_Annn(Opcode(0xA123)), 0);
    assert_eq!(s.i, 0x123);
    s.v[4] = 0xFF;
    assert_eq!(s.execute_Fx1E(Opcode(0xF41E)), 0);
    assert_eq!(s.i, 0x222);
    s.i = 0xFFFF;
    s.v[4] = 2;
    s.execute_Fx1E(Opcode(0xF41E));
    assert_eq!(s.i, 1);
    s.v[4] = 0xA;
    assert_eq!(s.execute_Fx29(Opcode(0xF429)), 0);
    assert_eq!(s.i, 50);
    s.v[4] = 0xFF;
    s.execute_Fx29(Opcode(0xF429));
    assert_eq!(s.i, 1275);
}

#[test]
fn computed_jump() {
    let mut s = machine();
    s.v[0] = 0xFF;
    assert_eq!(s.execute_Bnnn(Opcode(0xBFFF)), 1);
    assert_eq!(s.pc, 0x10FE);
}

#[test]
fn random_is_masked() {
    let mut s = machine();
    for _ in 0..64 {
        assert_eq!(s.execute_Cxkk(Opcode(0xC30F)), 0);
        assert!(s.v[3] <= 0x0F);
    }
    s.v[3] = 0xAA;
    s.execute_Cxkk(Opcode(0xC300));
    assert_eq!(s.v[3], 0);
}

#[test]
fn random_varies() {
    let mut s = machine();
    let mut seen = [false; 256];
    for _ in 0..2000 {
        s.execute_Cxkk(Opcode(0xC3FF));
        seen[s.v[3] as usize] = true;
    }
    assert!(seen.iter().filter(|b| **b).count() > 32);
    assert!(seen[128..].iter().any(|b| *b));
}

#[test]
fn given_random_byte_is_masked() {
    let mut s = machine();
    assert_eq!(s.store_random(Opcode(0xC53C), 0xF5), 0);
    assert_eq!(s.v[5], 0x34);
}

#[test]
fn key_skips() {
    let mut s = machine();
    s.v[1] = 0xB;
    s.keys[0xB] = true;
    assert_eq!(s.execute_Ex9E(Opcode(0xE19E)), 1);
    assert_eq!(s.pc, 0x204);
    assert_eq!(s.execute_ExA1(Opcode(0xE1A1)), 0);
    assert_eq!(s.pc, 0x204);
    s.keys[0xB] = false;
    assert_eq!(s.execute_Ex9E(Opcode(0xE19E)), 0);
    assert_eq!(s.execute_ExA1(Opcode(0xE1A1)), 1);
    assert_eq!(s.pc, 0x206);
}

#[test]
fn key_number_out_of_range_is_not_executable() {
    let mut s = machine();
    s.v[1] = 16;
    assert!(!s.can_execute(Handler::HEx9E, Opcode(0xE19E)));
    assert!(!s.can_execute(Handler::HExA1, Opcode(0xE1A1)));
    s.pc = 0x200;
    assert_eq!(s.execute_at(Handler::HEx9E, Opcode(0xE19E)), Err(Fault::OutOfRange { pc: 0x200 }));
    assert_eq!(s.pc, 0x200);
    s.v[1] = 15;
    assert!(s.can_execute(Handler::HEx9E, Opcode(0xE19E)));
}

#[test]
fn timer_instructions() {
    let mut s = machine();
    s.delay = 0x42;
    assert_eq!(s.execute_Fx07(Opcode(0xF307)), 0);
    assert_eq!(s.v[3], 0x42);
    s.v[4] = 0x10;
    assert_eq!(s.execute_Fx15(Opcode(0xF415)), 0);
    assert_eq!(s.delay, 0x10);
    s.v[5] = 0x20;
    assert_eq!(s.execute_Fx18(Opcode(0xF518)), 0);
    assert_eq!(s.sound, 0x20);
}

#[test]
fn wait_key_instruction() {
    let mut s = machine();
    assert_eq!(s.execute_Fx0A(Opcode(0xF30A)), 1);
    assert_eq!(s.pc, 0x200);
    assert_eq!(s.wait_key, WaitKey::Waiting);
    s.pc = 0x202;
    assert_eq!(s.execute_Fx0A(Opcode(0xF30A)), 1);
    assert_eq!(s.pc, 0x200);
    s.wait_key = WaitKey::Key(0xC);
    s.pc = 0x202;
    assert_eq!(s.execute_Fx0A(Opcode(0xF30A)), 0);
    assert_eq!(s.pc, 0x202);
    assert_eq!(s.v[3], 0xC);
    assert_eq!(s.wait_key, WaitKey::NotWaiting);
}

#[test]
fn wait_key_states() {
    let mut s = machine();
    assert!(!s.wait_key(2));
    assert_eq!(s.wait_key, WaitKey::Waiting);
    assert!(!s.wait_key(2));
    assert_eq!(s.wait_key, WaitKey::Waiting);
    s.wait_key = WaitKey::Key(9);
    assert!(s.wait_key(2));
    assert_eq!(s.v[2], 9);
    assert_eq!(s.wait_key, WaitKey::NotWaiting);
}

#[test]
fn set_key_records_release_while_waiting() {
    let mut s = machine();
    s.wait_key = WaitKey::Waiting;
    s.set_key(5, true);
    assert!(s.keys[5]);
    assert_eq!(s.wait_key, WaitKey::Waiting);
    s.set_key(5, false);
    assert!(!s.keys[5]);
    assert_eq!(s.wait_key, WaitKey::Key(5));
}

#[test]
fn set_key_leaves_wait_key_otherwise() {
    let mut s = machine();
    // Not waiting: press and release change the keys only.
    s.set_key(5, true);
    s.set_key(5, false);
    assert_eq!(s.wait_key, WaitKey::NotWaiting);
    // Waiting: a release of a key that was not down does nothing.
    s.wait_key = WaitKey::Waiting;
    s.set_key(6, false);
    assert_eq!(s.wait_key, WaitKey::Waiting);
    // A key already recorded stays.
    s.wait_key = WaitKey::Key(3);
    s.set_key(7, true);
    s.set_key(7, false);
    assert_eq!(s.wait_key, WaitKey::Key(3));
    // Key numbers above 15 are ignored.
    s.wait_key = WaitKey::Waiting;
    s.set_key(16, true);
    s.set_key(16, false);
    assert_eq!(s.wait_key, WaitKey::Waiting);
    assert_eq!(s.keys, [false; 16]);
}

#[test]
fn decimal_digits() {
    let mut s = machine();
    s.i = 0x300;
    s.v[2] = 254;
    assert_eq!(s.execute_Fx33(Opcode(0xF233)), 0);
    assert_eq!(&s.memory[0x300..0x303], &[2, 5, 4]);
    s.v[2] = 7;
    s.execute_Fx33(Opcode(0xF233));
    assert_eq!(&s.memory[0x300..0x303], &[0, 0, 7]);
    s.i = 0xFFD;
    assert!(s.can_execute(Handler::HFx33, Opcode(0xF233)));
    s.i = 0xFFE;
    assert!(!s.can_execute(Handler::HFx33, Opcode(0xF233)));
}

#[test]
fn store_registers_returns_the_range() {
    let mut s = machine();
    s.i = 0x300;
    for k in 0..16 {
        s.v[k] = 0x10 + k as u8;
    }
    assert_eq!(s.execute_Fx55(Opcode(0xF355)), 0x0300_0303);
    assert_eq!(&s.memory[0x300..0x305], &[0x10, 0x11, 0x12, 0x13, 0]);
    assert_eq!(s.i, 0x300);
    assert_eq!(control(0x0300_0303), Control::Invalidate { lo: 0x300, hi: 0x303 });
    s.i = 0xFF0;
    assert!(s.can_execute(Handler::HFx55, Opcode(0xFF55)));
    assert_eq!(s.execute_Fx55(Opcode(0xFF55)), 0x0FF0_0FFF);
    assert_eq!(s.memory[0xFFF], 0x1F);
    s.i = 0xFF1;
    assert!(!s.can_execute(Handler::HFx55, Opcode(0xFF55)));
    assert!(!s.can_execute(Handler::HFx65, Opcode(0xFF65)));
    assert!(s.can_execute(Handler::HFx65, Opcode(0xFE65)));
}

#[test]
fn load_registers() {
    let mut s = machine();
    s.i = 0x300;
    s.memory[0x300] = 1;
    s.memory[0x301] = 2;
    s.memory[0x302] = 3;
    s.v[2] = 0x77;
    assert_eq!(s.execute_Fx65(Opcode(0xF165)), 0);
    assert_eq!(&s.v[0..3], &[1, 2, 0x77]);
}

#[test]
fn store_then_load_restores_registers() {
    let mut s = machine();
    s.i = 0x400;
    for k in 0..16 {
        s.v[k] = 0xA0 + k as u8;
    }
    let before = s.v;
    s.execute_Fx55(Opcode(0xF955));
    for k in 0..16 {
        s.v[k] = 0;
    }
    s.execute_Fx65(Opcode(0xF965));
    assert_eq!(&s.v[0..10], &before[0..10]);
    assert_eq!(&s.v[10..16], &[0; 6]);
}

#[test]
fn control_codes() {
    assert_eq!(control(0), Control::Continue);
    assert_eq!(control(1), Control::EndBlock);
    assert_eq!(control(2), Control::Invalidate { lo: 0, hi: 2 });
    assert_eq!(control(0xFFFF_FFFF), Control::Invalidate { lo: 0xFFFF, hi: 0xFFFF });
}

#[test]
fn draw_toggles_and_reports_erased_pixels() {
    let mut s = machine();
    s.i = 0x300;
    s.memory[0x300] = 0b1010_0000;
    s.memory[0x301] = 0b0000_0001;
    s.v[1] = 64 + 2;
    s.v[2] = 32 + 3;
    s.v[0xF] = 9;
    s.draw(1, 2, 2);
    assert_eq!(s.v[0xF], 0);
    for y in 0..32 {
        for x in 0..64 {
            let lit = (y == 3 && (x == 2 || x == 4)) || (y == 4 && x == 9);
            assert_eq!(s.screen[y][x], lit);
        }
    }
    s.memory[0x300] = 0b1100_0000;
    s.draw(1, 2, 1);
    assert_eq!(s.v[0xF], 1);
    assert!(!s.screen[3][2]);
    assert!(s.screen[3][3]);
    assert!(s.screen[3][4]);
    assert!(s.screen[4][9]);
}

#[test]
fn draw_clips_at_the_right_and_bottom_edges() {
    let mut s = machine();
    s.i = 0x300;
    s.memory[0x300] = 0xFF;
    s.memory[0x301] = 0xFF;
    s.memory[0x302] = 0xFF;
    s.v[1] = 60;
    s.v[2] = 30;
    assert_eq!(s.execute_Dxyn(Opcode(0xD123)), 0);
    for y in 0..32 {
        for x in 0..64 {
            assert_eq!(s.screen[y][x], x >= 60 && y >= 30, "pixel {} {}", x, y);
        }
    }
    assert_eq!(s.v[0xF], 0);
}

#[test]
fn draw_reads_the_position_after_clearing_the_flag() {
    let mut s = machine();
    s.i = 0x300;
    s.memory[0x300] = 0x80;
    s.v[0xF] = 5;
    s.v[1] = 1;
    s.draw(0xF, 1, 1);
    assert!(s.screen[1][0]);
    assert!(!s.screen[1][5]);
}

#[test]
fn draw_needs_the_sprite_in_memory() {
    let mut s = machine();
    s.i = 0xFFC;
    assert!(s.can_execute(Handler::HDxyn, Opcode(0xD004)));
    assert!(!s.can_execute(Handler::HDxyn, Opcode(0xD005)));
    s.i = 0xFFFF;
    assert!(s.can_execute(Handler::HDxyn, Opcode(0xD000)) == false);
}

#[test]
fn decoder_knows_every_pattern() {
    let cases: [(u16, Handler); 40] = [
        (0x00E0, Handler::H00E0),
        (0x00EE, Handler::H00EE),
        (0x00E1, Handler::Invalid),
        (0x0000, Handler::Invalid),
        (0x01E0, Handler::Invalid),
        (0x1234, Handler::H1nnn),
        (0x2FFF, Handler::H2nnn),
        (0x3000, Handler::H3xkk),
        (0x4ABC, Handler::H4xkk),
        (0x5120, Handler::H5xy0),
        (0x5121, Handler::Invalid),
        (0x6000, Handler::H6xkk),
        (0x7FFF, Handler::H7xkk),
        (0x8AB0, Handler::H8xy0),
        (0x8AB1, Handler::H8xy1),
        (0x8AB2, Handler::H8xy2),
        (0x8AB3, Handler::H8xy3),
        (0x8AB4, Handler::H8xy4),
        (0x8AB5, Handler::H8xy5),
        (0x8AB6, Handler::H8xy6),
        (0x8AB7, Handler::H8xy7),
        (0x8ABE, Handler::H8xyE),
        (0x8AB8, Handler::Invalid),
        (0x9AB0, Handler::H9xy0),
        (0x9ABF, Handler::Invalid),
        (0xA000, Handler::HAnnn),
        (0xB123, Handler::HBnnn),
        (0xC0FF, Handler::HCxkk),
        (0xD125, Handler::HDxyn),
        (0xE39E, Handler::HEx9E),
        (0xE3A1, Handler::HExA1),
        (0xE39F, Handler::Invalid),
        (0xF207, Handler::HFx07),
        (0xF20A, Handler::HFx0A),
        (0xF215, Handler::HFx15),
        (0xF218, Handler::HFx18),
        (0xF21E, Handler::HFx1E),
        (0xF229, Handler::HFx29),
        (0xF233, Handler::HFx33),
        (0xF255, Handler::HFx55),
    ];
    for (word, handler) in cases {
        assert_eq!(decode(Opcode(word)), handler, "{:04X}", word);
    }
    assert_eq!(decode(Opcode(0xF265)), Handler::HFx65);
    assert_eq!(decode(Opcode(0xF266)), Handler::Invalid);
    assert_eq!(decode(Opcode(0xFFFF)), Handler::Invalid);
}

#[test]
fn decoder_table_holds_the_handler_of_every_word() {
    let lut = generate_decoder();
    assert_eq!(lut.len(), 65536);
    let mut valid = 0;
    for word in 0..=0xFFFFu16 {
        assert_eq!(lut[word as usize], decode(Opcode(word)));
        if lut[word as usize] != Handler::Invalid {
            valid += 1;
        }
    }
    // 2 literal words, 11 patterns of 4096, 12 of 256 and 9 of 16 words... counted by nibbles:
    // 00E0, 00EE; 1,2,3,4,6,7,A,B,C,D: 4096 each; 5,9: 256 each; 8: 9 * 256; E: 2 * 16; F: 9 * 16.
    assert_eq!(valid, 2 + 10 * 4096 + 2 * 256 + 9 * 256 + 2 * 16 + 9 * 16);
}

#[test]
fn table_lookup_is_the_decoder() {
    let table = Decoder::new();
    for word in [0x00E0u16, 0x00EE, 0x1234, 0x5AB1, 0x8AB7, 0xE09E, 0xF065, 0xF066, 0xFFFF, 0] {
        assert_eq!(table.lookup(Opcode(word)), decode(Opcode(word)));
    }
    assert_eq!(table.lookup(Opcode(0xD123)), Handler::HDxyn);
}

#[test]
fn pattern_is_expanded_into_the_table() {
    let mut lut = vec![Handler::Invalid; 65536];
    generate_opcodes(&Handler::HEx9E.format(), Handler::HEx9E, &mut lut);
    for word in 0..=0xFFFFu16 {
        let fits = word & 0xF0FF == 0xE09E;
        assert_eq!(lut[word as usize] == Handler::HEx9E, fits);
        assert_eq!(lut[word as usize] == Handler::Invalid, !fits);
    }
    generate_opcodes(b"00E0", Handler::H00E0, &mut lut);
    assert_eq!(lut[0x00E0], Handler::H00E0);
    assert_eq!(lut[0x00E1], Handler::Invalid);
    assert_eq!(lut[0xE09E], Handler::HEx9E);
}

#[test]
fn pattern_helpers() {
    assert_eq!(slice_to_usize(b"00E0"), 0x00E0);
    assert_eq!(slice_to_usize(b"F9A7"), 0xF9A7);
    assert_eq!(slice_to_array(b"3xkk"), *b"3xkk");
    assert_eq!(Handler::H3xkk.format(), *b"3xkk");
    assert_eq!(Handler::HFx1E.format(), *b"Fx1E");
    assert_eq!(Handler::HDxyn.format(), *b"Dxyn");
}

#[test]
fn block_ends() {
    for h in [
        Handler::H00EE,
        Handler::H1nnn,
        Handler::H2nnn,
        Handler::HBnnn,
        Handler::HFx0A,
        Handler::HFx55,
    ] {
        assert!(is_block_end(h));
    }
    for h in [Handler::H3xkk, Handler::H9xy0, Handler::HEx9E, Handler::HDxyn, Handler::HFx33, Handler::Invalid] {
        assert!(!is_block_end(h));
    }
}

#[test]
fn tick_counts_timers_down() {
    let mut s = machine();
    s.delay = 2;
    s.sound = 1;
    assert_eq!(s.tick(), Risp8Answer::PlaySound);
    assert_eq!((s.delay, s.sound), (1, 0));
    assert_eq!(s.tick(), Risp8Answer::StopSound);
    assert_eq!((s.delay, s.sound), (0, 0));
    assert_eq!(s.tick(), Risp8Answer::StopSound);
    assert_eq!((s.delay, s.sound), (0, 0));
}

#[test]
fn tick_is_due_at_16666_microseconds() {
    let mut s = machine();
    s.delay = 5;
    s.sound = 1;
    assert_eq!(s.tick_if_due(0), None);
    assert_eq!(s.tick_if_due(16_665), None);
    assert_eq!((s.delay, s.sound), (5, 1));
    assert_eq!(s.tick_if_due(16_666), Some(Risp8Answer::PlaySound));
    assert_eq!((s.delay, s.sound), (4, 0));
    // However late, one tick only.
    assert_eq!(s.tick_if_due(1_000_000), Some(Risp8Answer::StopSound));
    assert_eq!((s.delay, s.sound), (3, 0));
    assert_eq!(s.tick_if_due(u128::MAX), Some(Risp8Answer::StopSound));
    assert_eq!((s.delay, s.sound), (2, 0));
}

#[test]
fn anchor_is_kept_until_a_tick() {
    let mut s = machine();
    let mut timer = std::time::Instant::now();
    let anchor = timer;
    assert_eq!(handle_timers(&mut s, &mut timer), None);
    assert_eq!(timer, anchor);
    let start = std::time::Instant::now();
    while start.elapsed().as_micros() < 20_000 {}
    assert_eq!(handle_timers(&mut s, &mut timer), Some(Risp8Answer::StopSound));
    assert!(timer > anchor);
}

#[test]
fn timers_tick_once_per_period() {
    let mut s = machine();
    s.delay = 10;
    s.sound = 10;
    let mut timer = std::time::Instant::now();
    assert_eq!(handle_timers(&mut s, &mut timer), None);
    assert_eq!(s.delay, 10);
    let start = std::time::Instant::now();
    while start.elapsed().as_micros() < 40_000 {}
    // More than two periods have passed: still one tick, no catching up.
    assert_eq!(handle_timers(&mut s, &mut timer), Some(Risp8Answer::PlaySound));
    assert_eq!((s.delay, s.sound), (9, 9));
    assert_eq!(handle_timers(&mut s, &mut timer), None);
    assert_eq!((s.delay, s.sound), (9, 9));
    assert!(timer.elapsed().as_micros() < 16_000);
}

#[test]
fn interpreter_step_returns_the_code() {
    let mut s = State::new(&[0x60, 0x07, 0x12, 0x00, 0xA3, 0x00]);
    let lut = Decoder::new();
    assert_eq!(s.step(&lut), Ok(0));
    assert_eq!((s.pc, s.v[0]), (0x202, 7));
    assert_eq!(s.step(&lut), Ok(1));
    assert_eq!(s.pc, 0x200);
    s.pc = 0x206;
    assert_eq!(s.step(&lut), Err(Fault::InvalidOpcode { opcode: 0, pc: 0x206 }));
    assert_eq!(s.pc, 0x206);
    assert_eq!(s.fetch(0x204), Opcode(0xA300));
}

#[test]
fn execute_dispatches_on_the_handler() {
    let mut s = machine();
    assert_eq!(s.execute(Handler::H6xkk, Opcode(0x6312)), 0);
    assert_eq!(s.v[3], 0x12);
    assert_eq!(s.execute(Handler::H1nnn, Opcode(0x1456)), 1);
    assert_eq!(s.pc, 0x456);
    assert_eq!(s.execute_at(Handler::Invalid, Opcode(0xFFFF)), Err(Fault::InvalidOpcode { opcode: 0xFFFF, pc: 0x456 }));
    s.sp = 17;
    assert_eq!(s.execute_at(Handler::H00EE, Opcode(0x00EE)), Err(Fault::OutOfRange { pc: 0x456 }));
    s.sp = 16;
    s.stack[15] = 0x789;
    assert_eq!(s.execute_at(Handler::H00EE, Opcode(0x00EE)), Ok(1));
    assert_eq!((s.sp, s.pc), (15, 0x789));
}
