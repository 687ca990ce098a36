use risp8::block::{build_block, run_block, CachedInstruction, InstructionCache};
use risp8::cached_interpreter::addr_to_index;
use risp8::cached_interpreter_2::{addr_to_index as pool_of, index_in_subcache};
use risp8::chip8::{Chip8, ExecutionMethod};
use risp8::instruction::{Fault, Handler, StackWarning};
use risp8::opcode::Opcode;
use risp8::state::State;

fn cached_core(program: &[u8], method: ExecutionMethod) -> Chip8 {
    let mut core = Chip8::new(program).unwrap_or_else(|_| panic!("program too large"));
    core.execution_method = method;
    core
}

fn handlers(block: &InstructionCache) -> Vec<Handler> {
    block.instructions.iter().map(|inst| inst.execute).collect()
}

fn block_at(pc: u16, end_pc: u16) -> InstructionCache {
    InstructionCache {
        pc,
        end_pc,
        instructions: vec![CachedInstruction { opcode: Opcode(0x1200), execute: Handler::H1nnn }],
    }
}

#[test]
fn slot_indices() {
    assert_eq!(addr_to_index(0x200), 0);
    assert_eq!(addr_to_index(0xFFF), 0xDFF);
    assert_eq!(pool_of(0x200), 0);
    assert_eq!(pool_of(0x20F), 0);
    assert_eq!(pool_of(0x210), 1);
    assert_eq!(pool_of(0xFFF), 0xDF);
    assert_eq!(index_in_subcache(0x200), 0);
    assert_eq!(index_in_subcache(0x20F), 15);
    assert_eq!(index_in_subcache(0x210), 0);
    assert_eq!(index_in_subcache(0xABC), 12);
}

#[test]
fn block_ends_after_a_jump() {
    let s = State::new(&[0x60, 0x01, 0x30, 0x01, 0xD0, 0x01, 0x12, 0x00, 0x61, 0x02]);
    let block = build_block(&s.memory, 0x200, false).unwrap();
    assert_eq!(block.pc, 0x200);
    assert_eq!(block.end_pc, 0x208);
    assert_eq!(handlers(&block), [Handler::H6xkk, Handler::H3xkk, Handler::HDxyn, Handler::H1nnn]);
    assert_eq!(block.instructions[3].opcode, Opcode(0x1200));
}

#[test]
fn each_block_ending_instruction_ends_the_block() {
    for (word, handler) in [
        (0x00EEu16, Handler::H00EE),
        (0x1234, Handler::H1nnn),
        (0x2345, Handler::H2nnn),
        (0xB456, Handler::HBnnn),
        (0xF10A, Handler::HFx0A),
        (0xF155, Handler::HFx55),
    ] {
        let s = State::new(&[0x60, 0x01, (word >> 8) as u8, word as u8, 0x61, 0x02, 0x12, 0x00]);
        let block = build_block(&s.memory, 0x200, false).unwrap();
        assert_eq!(handlers(&block), [Handler::H6xkk, handler]);
        assert_eq!(block.end_pc, 0x204);
    }
}

#[test]
fn skips_do_not_end_the_block() {
    let s = State::new(&[
        0x30, 0x00, 0x40, 0x00, 0x50, 0x10, 0x90, 0x10, 0xE0, 0x9E, 0xE0, 0xA1, 0xF0, 0x33, 0x00,
        0xEE,
    ]);
    let block = build_block(&s.memory, 0x200, false).unwrap();
    assert_eq!(block.instructions.len(), 8);
    assert_eq!(block.end_pc, 0x210);
}

#[test]
fn word_that_is_no_instruction_ends_the_block_before_it() {
    let s = State::new(&[0x60, 0x01, 0x61, 0x02, 0xFF, 0xFF, 0x12, 0x00]);
    let block = build_block(&s.memory, 0x200, false).unwrap();
    assert_eq!(handlers(&block), [Handler::H6xkk, Handler::H6xkk]);
    assert_eq!(block.end_pc, 0x206);
    assert_eq!(
        build_block(&s.memory, 0x204, false).err(),
        Some(Fault::InvalidOpcode { opcode: 0xFFFF, pc: 0x204 })
    );
}

#[test]
fn block_from_an_odd_address() {
    let s = State::new(&[0x00, 0x60, 0x05, 0x12, 0x00]);
    let block = build_block(&s.memory, 0x201, false).unwrap();
    assert_eq!(block.instructions[0].opcode, Opcode(0x6005));
    assert_eq!(block.instructions[1].opcode, Opcode(0x1200));
    assert_eq!(block.end_pc, 0x205);
}

#[test]
fn block_that_reaches_the_end_of_memory_is_a_fault() {
    let mut s = State::new(&[]);
    for a in 0xFF0..0x1000 {
        s.memory[a] = 0x60;
    }
    assert_eq!(build_block(&s.memory, 0xFF0, false).err(), Some(Fault::OutOfRange { pc: 0x1000 }));
    assert_eq!(build_block(&s.memory, 0xFF1, false).err(), Some(Fault::OutOfRange { pc: 0xFFF }));
    // With pools, the block ends where the pool ends.
    let block = build_block(&s.memory, 0xFF0, true).unwrap();
    assert_eq!(block.instructions.len(), 8);
    assert_eq!(block.end_pc, 0x1000);
}

#[test]
fn pooled_block_ends_with_its_pool() {
    let mut program = vec![];
    for _ in 0..20 {
        program.extend_from_slice(&[0x70, 0x01]);
    }
    program.extend_from_slice(&[0x12, 0x00]);
    let s = State::new(&program);
    let block = build_block(&s.memory, 0x200, true).unwrap();
    assert_eq!(block.instructions.len(), 8);
    assert_eq!(block.end_pc, 0x210);
    let block = build_block(&s.memory, 0x20C, true).unwrap();
    assert_eq!(block.instructions.len(), 2);
    assert_eq!(block.end_pc, 0x210);
    let block = build_block(&s.memory, 0x220, true).unwrap();
    assert_eq!(block.instructions.len(), 5);
    assert_eq!(block.end_pc, 0x22A);
    let block = build_block(&s.memory, 0x200, false).unwrap();
    assert_eq!(block.instructions.len(), 21);
    assert_eq!(block.end_pc, 0x22A);
    let block = Chip8::new_cache_block_2(0x21E, &s.memory).unwrap();
    assert_eq!(block.instructions.len(), 1);
    assert_eq!((block.pc, block.end_pc), (0x21E, 0x220));
}

#[test]
fn pooled_block_from_an_odd_address_ends_with_its_pool() {
    // 60 00 60 00 00 00 from 0x20F: the second word starts at 0x211, in the next pool.
    let mut s = State::new(&[]);
    s.memory[0x20F] = 0x60;
    s.memory[0x211] = 0x60;
    let block = Chip8::new_cache_block_2(0x20F, &s.memory).unwrap();
    assert_eq!(block.instructions.len(), 1);
    assert_eq!((block.pc, block.end_pc), (0x20F, 0x211));
    assert_eq!(block.instructions[0].opcode, Opcode(0x6000));
    // From 0x201 over words that go on: the instructions at 0x201, 0x203, ..., 0x20F.
    for a in 0x201..0x240 {
        s.memory[a] = if a % 2 == 1 { 0x70 } else { 0x01 };
    }
    let block = Chip8::new_cache_block_2(0x201, &s.memory).unwrap();
    assert_eq!(block.instructions.len(), 8);
    assert_eq!((block.pc, block.end_pc), (0x201, 0x211));
    let block = Chip8::new_cache_block_2(0x20D, &s.memory).unwrap();
    assert_eq!(block.instructions.len(), 2);
    assert_eq!(block.end_pc, 0x211);
    // Without pools the block goes on to the first word that is no instruction.
    let block = build_block(&s.memory, 0x201, false).unwrap();
    assert_eq!(block.instructions.len(), 32);
    assert_eq!(block.end_pc, 0x243);
    for start in 0x200..0x240u16 {
        let block = build_block(&s.memory, start, true);
        if let Ok(block) = block {
            assert!(block.instructions.len() <= 8);
            for j in 0..block.instructions.len() as u16 {
                assert_eq!((start + 2 * j - 0x200) >> 4, (start - 0x200) >> 4);
            }
        }
    }
}

#[test]
fn store_into_the_next_pool_from_a_block_at_an_odd_address() {
    // V0 = 0x61 at 0x20D; jump at 0x20F reaches 0x210, the first byte of the next pool.
    let mut core = cached_core(&[], ExecutionMethod::CachedInterpreter2);
    core.state.memory[0x20D] = 0x60;
    core.state.memory[0x20E] = 0x61;
    core.state.memory[0x20F] = 0x70;
    core.state.memory[0x210] = 0x01;
    core.state.memory[0x211] = 0x13;
    core.state.memory[0x212] = 0x00;
    core.state.pc = 0x20D;
    assert!(core.cached_interpreter_2().is_ok());
    // The block ends with its pool: the jump at 0x211 is not part of it.
    assert_eq!(core.state.pc, 0x211);
    assert_eq!(core.state.v[0], 0x62);
    let pool = core.interpreter_caches_2[0].as_ref().unwrap();
    let block = pool[13].as_ref().unwrap();
    assert_eq!((block.pc, block.end_pc, block.instructions.len()), (0x20D, 0x211, 2));
    assert!(core.interpreter_caches_2[1].is_none());
}

#[test]
fn block_stops_at_the_first_nonzero_code() {
    // V0 = 1; skip if V0 == 1 (taken); V1 = 2; jump.
    let mut s = State::new(&[0x60, 0x01, 0x30, 0x01, 0x61, 0x02, 0x12, 0x00]);
    let block = build_block(&s.memory, 0x200, false).unwrap();
    assert_eq!(run_block(&mut s, &block.instructions), (Ok(1), None));
    assert_eq!(s.pc, 0x206);
    assert_eq!(s.v[1], 0);
    let block = build_block(&s.memory, 0x206, false).unwrap();
    assert_eq!(run_block(&mut s, &block.instructions), (Ok(1), None));
    assert_eq!(s.pc, 0x200);
}

#[test]
fn block_ends_with_the_warning_of_its_last_instruction() {
    // V0 = 1; return on an empty stack.
    let mut s = State::new(&[0x60, 0x01, 0x00, 0xEE]);
    let block = build_block(&s.memory, 0x200, false).unwrap();
    assert_eq!(run_block(&mut s, &block.instructions), (Ok(1), Some(StackWarning::Underflow)));
    assert_eq!((s.pc, s.sp, s.v[0]), (0x204, 0, 1));
    // A call at depth 15.
    let mut s = State::new(&[0x60, 0x01, 0x23, 0x00]);
    s.sp = 15;
    let block = build_block(&s.memory, 0x200, false).unwrap();
    assert_eq!(run_block(&mut s, &block.instructions), (Ok(1), Some(StackWarning::Overflow)));
    assert_eq!((s.pc, s.sp), (0x204, 15));
    // A call that is served gives no warning.
    let mut s = State::new(&[0x60, 0x01, 0x23, 0x00]);
    s.sp = 14;
    let block = build_block(&s.memory, 0x200, false).unwrap();
    assert_eq!(run_block(&mut s, &block.instructions), (Ok(1), None));
    assert_eq!((s.pc, s.sp), (0x300, 15));
    // A skip that is taken ends the run before the return.
    let mut s = State::new(&[0x30, 0x00, 0x00, 0xEE]);
    let block = build_block(&s.memory, 0x200, false).unwrap();
    assert_eq!(run_block(&mut s, &block.instructions), (Ok(1), None));
    assert_eq!(s.pc, 0x204);
}

#[test]
fn block_without_a_nonzero_code_returns_zero() {
    let mut s = State::new(&[0x60, 0x01, 0x61, 0x02, 0xFF, 0xFF]);
    let block = build_block(&s.memory, 0x200, false).unwrap();
    assert_eq!(run_block(&mut s, &block.instructions), (Ok(0), None));
    assert_eq!(s.pc, 0x204);
    assert_eq!((s.v[0], s.v[1]), (1, 2));
    assert_eq!(run_block(&mut s, &Vec::new()), (Ok(0), None));
    assert_eq!(s.pc, 0x204);
}

#[test]
fn block_stops_at_an_instruction_that_cannot_be_executed() {
    // I = 0xFFF; V0 = 1; store V0..V1 runs off memory.
    let mut s = State::new(&[0xAF, 0xFF, 0x60, 0x01, 0xF1, 0x55]);
    let block = build_block(&s.memory, 0x200, false).unwrap();
    assert_eq!(
        run_block(&mut s, &block.instructions),
        (Err(Fault::OutOfRange { pc: 0x204 }), None)
    );
    assert_eq!(s.pc, 0x204);
    assert_eq!(s.v[0], 1);
    assert_eq!(s.memory[0xFFF], 0);
}

#[test]
fn push_appends_to_a_block() {
    let mut block = InstructionCache { pc: 0x200, end_pc: 0x200, instructions: Vec::new() };
    block.push(CachedInstruction { opcode: Opcode(0x6001), execute: Handler::H6xkk });
    block.push(CachedInstruction { opcode: Opcode(0x1200), execute: Handler::H1nnn });
    assert_eq!(handlers(&block), [Handler::H6xkk, Handler::H1nnn]);
    assert_eq!((block.pc, block.end_pc), (0x200, 0x200));
}

#[test]
fn invalidation_drops_blocks_that_contain_an_end() {
    let mut core = cached_core(&[], ExecutionMethod::CachedInterpreter);
    core.interpreter_caches[0x000] = Some(block_at(0x200, 0x210)); // contains neither
    core.interpreter_caches[0x0F0] = Some(block_at(0x2F0, 0x301)); // contains the low end
    core.interpreter_caches[0x100] = Some(block_at(0x300, 0x302)); // contains the low end
    core.interpreter_caches[0x102] = Some(block_at(0x302, 0x306)); // strictly inside
    core.interpreter_caches[0x108] = Some(block_at(0x308, 0x310)); // contains the high end
    core.interpreter_caches[0x109] = Some(block_at(0x309, 0x30B)); // starts after the range
    core.interpreter_caches[0x0E0] = Some(block_at(0x2E0, 0x300)); // ends where the range starts
    core.invalidate_cache(0x300, 0x308);
    assert!(core.interpreter_caches[0x000].is_some());
    assert!(core.interpreter_caches[0x0F0].is_none());
    assert!(core.interpreter_caches[0x100].is_none());
    assert!(core.interpreter_caches[0x102].is_some());
    assert!(core.interpreter_caches[0x108].is_none());
    assert!(core.interpreter_caches[0x109].is_some());
    assert!(core.interpreter_caches[0x0E0].is_some());
    assert_eq!(core.interpreter_caches.len(), 0xE00);
}

#[test]
fn pool_invalidation_drops_whole_pools() {
    let mut core = cached_core(&[], ExecutionMethod::CachedInterpreter2);
    for p in 0..0xE0 {
        let mut pool: [Option<InstructionCache>; 16] = std::array::from_fn(|_| None);
        pool[0] = Some(block_at(0x200 + 16 * p as u16, 0x202 + 16 * p as u16));
        core.interpreter_caches_2[p] = Some(pool);
    }
    core.invalidate_cache_2(0x30F, 0x320);
    for p in 0..0xE0 {
        assert_eq!(core.interpreter_caches_2[p].is_none(), (0x10..=0x12).contains(&p), "pool {}", p);
    }
    core.invalidate_cache_2(0x100, 0x200);
    assert!(core.interpreter_caches_2[0].is_none());
    assert!(core.interpreter_caches_2[1].is_some());
    core.invalidate_cache_2(0xFFF, 0xFFFF);
    assert!(core.interpreter_caches_2[0xDF].is_none());
    assert!(core.interpreter_caches_2[0xDE].is_some());
    core.invalidate_cache_2(0x000, 0x1FF);
    core.invalidate_cache_2(0x1000, 0x2000);
    core.invalidate_cache_2(0x400, 0x3FF);
    assert_eq!(core.interpreter_caches_2.iter().filter(|p| p.is_none()).count(), 5);
}

#[test]
fn instruction_invalidation_clears_the_addresses_written() {
    let mut core = cached_core(&[], ExecutionMethod::CachedInterpreter3);
    for k in 0..0xE00 {
        core.interpreter_caches_3[k] =
            Some(CachedInstruction { opcode: Opcode(0x6000), execute: Handler::H6xkk });
    }
    core.invalidate_cache_3(0x300, 0x303);
    for k in 0..0xE00 {
        assert_eq!(core.interpreter_caches_3[k].is_none(), (0x100..=0x103).contains(&k));
    }
    core.invalidate_cache_3(0x1FE, 0x201);
    assert!(core.interpreter_caches_3[0].is_none());
    assert!(core.interpreter_caches_3[1].is_none());
    assert!(core.interpreter_caches_3[2].is_some());
    core.invalidate_cache_3(0xFFE, 0x1005);
    assert!(core.interpreter_caches_3[0xDFF].is_none());
    assert!(core.interpreter_caches_3[0xDFE].is_none());
    assert!(core.interpreter_caches_3[0xDFD].is_some());
    core.invalidate_cache_3(0x500, 0x4FF);
    assert!(core.interpreter_caches_3[0x300].is_some());
    assert!(core.interpreter_caches_3[0x2FF].is_some());
}

#[test]
fn self_modifying_code_is_seen_after_a_store() {
    // The program overwrites the instruction at 0x20A (V5 = 1) with V5 = 0x77.
    let program = [
        0x60, 0x65, // 200: V0 = 0x65
        0x61, 0x77, // 202: V1 = 0x77
        0x65, 0x00, // 204: V5 = 0 (so that the first pass is visible)
        0xA2, 0x0A, // 206: I = 0x20A
        0x12, 0x0A, // 208: jump 0x20A
        0x65, 0x01, // 20A: V5 = 1
        0xF1, 0x55, // 20C: store V0..V1 at 0x20A
        0x12, 0x0A, // 20E: jump 0x20A
    ];
    for method in [
        ExecutionMethod::Interpreter,
        ExecutionMethod::CachedInterpreter,
        ExecutionMethod::CachedInterpreter2,
        ExecutionMethod::CachedInterpreter3,
    ] {
        let mut core = cached_core(&program, method);
        let mut stores = 0;
        let mut steps = 0;
        while stores < 1 || core.state.pc != 0x20E {
            let at_store = core.state.pc == 0x20A || core.state.pc == 0x20C;
            match core.single_step() {
                Some(Ok(_)) => (),
                other => panic!("{:?}", other.is_some()),
            }
            if at_store && core.state.memory[0x20A] == 0x65 && core.state.memory[0x20B] == 0x77 {
                stores += 1;
            }
            steps += 1;
            assert!(steps < 100);
        }
        assert_eq!(core.state.v[5], 1);
        // Second pass over 0x20A: the new instruction is executed.
        while core.state.pc != 0x20A {
            core.single_step();
        }
        core.single_step();
        assert_eq!(core.state.v[5], 0x77, "{:?}", method);
    }
}

#[test]
fn table_without_the_slot_is_a_fault() {
    let mut core = cached_core(&[0x60, 0x01], ExecutionMethod::CachedInterpreter);
    core.interpreter_caches.truncate(0);
    assert_eq!(core.cached_interpreter(), Err(Fault::NoCacheSlot { pc: 0x200 }));
    core.interpreter_caches_3.truncate(0x10);
    core.state.pc = 0x210;
    assert_eq!(core.cached_interpreter_3(), Err(Fault::NoCacheSlot { pc: 0x210 }));
    core.state.pc = 0x20F;
    core.state.memory[0x20F] = 0x61;
    core.state.memory[0x210] = 0x02;
    assert!(core.cached_interpreter_3().is_ok());
    assert_eq!(core.state.v[1], 2);
    core.invalidate_cache_3(0x200, 0xFFF);
    assert!(core.interpreter_caches_3.iter().all(|c| c.is_none()));
    assert_eq!(core.interpreter_caches_3.len(), 0x10);
    core.interpreter_caches_2.truncate(1);
    core.state.pc = 0x210;
    assert_eq!(core.cached_interpreter_2(), Err(Fault::NoCacheSlot { pc: 0x210 }));
    core.state.pc = 0x200;
    assert!(core.cached_interpreter_2().is_ok());
    assert_eq!(core.state.v[0], 1);
    assert!(core.interpreter_caches_2[0].is_some());
    core.invalidate_cache_2(0x200, 0xFFF);
    assert!(core.interpreter_caches_2[0].is_none());
    assert_eq!(core.interpreter_caches_2.len(), 1);
}

#[test]
fn cached_step_fills_its_slot() {
    let mut core = cached_core(&[0x60, 0x01, 0x12, 0x00], ExecutionMethod::CachedInterpreter);
    assert!(core.cached_interpreter().is_ok());
    let block = core.interpreter_caches[0].as_ref().unwrap();
    assert_eq!((block.pc, block.end_pc, block.instructions.len()), (0x200, 0x204, 2));
    assert_eq!(core.interpreter_caches.iter().filter(|c| c.is_some()).count(), 1);

    let mut core = cached_core(&[0x60, 0x01, 0x12, 0x00], ExecutionMethod::CachedInterpreter2);
    core.state.pc = 0x202;
    assert!(core.cached_interpreter_2().is_ok());
    assert_eq!(core.state.pc, 0x200);
    let pool = core.interpreter_caches_2[0].as_ref().unwrap();
    assert_eq!(pool.len(), 16);
    let block = pool[2].as_ref().unwrap();
    assert_eq!((block.pc, block.end_pc, block.instructions.len()), (0x202, 0x204, 1));
    assert_eq!(pool.iter().filter(|c| c.is_some()).count(), 1);

    let mut core = cached_core(&[0x60, 0x01, 0x12, 0x00], ExecutionMethod::CachedInterpreter3);
    assert!(core.cached_interpreter_3().is_ok());
    assert_eq!(
        core.interpreter_caches_3[0],
        Some(CachedInstruction { opcode: Opcode(0x6001), execute: Handler::H6xkk })
    );
}

#[test]
fn cached_step_runs_what_its_slot_holds() {
    // The slot holds V3 = 9 although memory says V0 = 1.
    let mut core = cached_core(&[0x60, 0x01, 0x12, 0x00], ExecutionMethod::CachedInterpreter3);
    core.interpreter_caches_3[0] =
        Some(CachedInstruction { opcode: Opcode(0x6309), execute: Handler::H6xkk });
    assert!(core.cached_interpreter_3().is_ok());
    assert_eq!((core.state.v[0], core.state.v[3], core.state.pc), (0, 9, 0x202));
}

#[test]
fn invalid_first_word_leaves_the_pool_in_place() {
    let mut core = cached_core(&[0xFF, 0xFF], ExecutionMethod::CachedInterpreter2);
    assert_eq!(
        core.cached_interpreter_2(),
        Err(Fault::InvalidOpcode { opcode: 0xFFFF, pc: 0x200 })
    );
    let pool = core.interpreter_caches_2[0].as_ref().unwrap();
    assert!(pool.iter().all(|c| c.is_none()));
    assert_eq!(pool.len(), 16);
}
