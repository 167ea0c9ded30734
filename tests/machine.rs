use chip8::chip8::{Chip8, Config, Fault, RunState, MAX_PROGRAM_SIZE};
use chip8::font::FONTSET;

fn machine_with(program: &[u8]) -> Chip8 {
    let mut c = Chip8::new();
    c.load_program(&program.to_vec()).unwrap();
    c
}

fn strict() -> Config {
    Config { shift_uses_vy: false, load_store_advances_index: false, strict: true }
}

#[test]
fn reset_state() {
    let c = Chip8::new();
    assert_eq!(c.pc, 0x200);
    assert_eq!(c.stackpointer, 0);
    assert_eq!(c.i, 0);
    assert_eq!(c.opcode, 0);
    assert_eq!(c.delay_timer, 0);
    assert_eq!(c.sound_timer, 0);
    assert_eq!(c.vregisters, [0u8; 16]);
    assert_eq!(c.jumpstack, [0u16; 16]);
    assert_eq!(c.keystate, [false; 16]);
    assert_eq!(&c.memory[0..80], &FONTSET[..]);
    assert!(c.memory[80..].iter().all(|&b| b == 0));
    assert!(c.display.iter().all(|&p| p == 0));
    assert_eq!(c.state, RunState::Running);
    assert_eq!(c.config, Config::default());
}

#[test]
fn font_rom_first_and_last_glyph() {
    let c = Chip8::new();
    assert_eq!(&c.memory[0..5], &[0xF0, 0x90, 0x90, 0x90, 0xF0]);
    assert_eq!(&c.memory[75..80], &[0xF0, 0x80, 0xF0, 0x80, 0x80]);
}

#[test]
fn load_program_keeps_other_bytes() {
    let mut c = Chip8::new();
    c.memory[0x300] = 0x55;
    c.memory[0x203] = 0x66;
    assert_eq!(c.load_program(&vec![1, 2, 3]), Ok(()));
    assert_eq!(&c.memory[0x200..0x204], &[1, 2, 3, 0x66]);
    assert_eq!(c.memory[0x300], 0x55);
    assert_eq!(&c.memory[0..80], &FONTSET[..]);
}

#[test]
fn load_program_on_reset_machine_leaves_tail_zero() {
    let c = machine_with(&[7, 8]);
    assert_eq!(&c.memory[0x200..0x202], &[7, 8]);
    assert!(c.memory[0x202..].iter().all(|&b| b == 0));
}

#[test]
fn load_empty_program_changes_nothing() {
    let mut c = Chip8::new();
    c.memory[0x200] = 1;
    assert_eq!(c.load_program(&vec![]), Ok(()));
    assert_eq!(c.memory[0x200], 1);
}

#[test]
fn load_program_largest_fits() {
    let mut c = Chip8::new();
    let program = vec![0xAB; MAX_PROGRAM_SIZE];
    assert_eq!(c.load_program(&program), Ok(()));
    assert_eq!(c.memory[0xFFF], 0xAB);
    assert_eq!(c.memory[0x200], 0xAB);
}

#[test]
fn load_program_rejects_oversized_rom() {
    let mut c = Chip8::new();
    let program = vec![0xAB; MAX_PROGRAM_SIZE + 1];
    assert_eq!(c.load_program(&program), Err(Fault::RomTooLarge));
    assert!(c.memory[0x200..].iter().all(|&b| b == 0));
}

#[test]
fn fx33_example_program() {
    let mut c = machine_with(&[0x6A, 0xFF, 0xFA, 0x33]);
    c.i = 0x300;
    c.step(0).unwrap();
    c.step(0).unwrap();
    assert_eq!(&c.memory[0x300..0x303], &[2, 5, 5]);
    assert_eq!(c.pc, 0x204);
}

#[test]
fn bcd_of_234() {
    let mut c = machine_with(&[0x60, 234, 0xF0, 0x33]);
    c.i = 0x400;
    c.step(0).unwrap();
    c.step(0).unwrap();
    assert_eq!(&c.memory[0x400..0x403], &[2, 3, 4]);
}

#[test]
fn call_then_return_program() {
    let mut c = machine_with(&[0x22, 0x04, 0x12, 0x06, 0x00, 0xEE]);
    c.step(0).unwrap();
    assert_eq!(c.pc, 0x204);
    assert_eq!(c.stackpointer, 1);
    assert_eq!(c.jumpstack[0], 0x202);
    c.step(0).unwrap();
    assert_eq!(c.pc, 0x202);
    assert_eq!(c.stackpointer, 0);
    c.step(0).unwrap();
    assert_eq!(c.pc, 0x206);
    assert_eq!(c.stackpointer, 0);
}

#[test]
fn stack_round_trip_far_address() {
    let mut c = machine_with(&[0x2E, 0x00]);
    c.memory[0xE00] = 0x00;
    c.memory[0xE01] = 0xEE;
    c.stackpointer = 5;
    c.step(0).unwrap();
    assert_eq!(c.pc, 0xE00);
    c.step(0).unwrap();
    assert_eq!(c.pc, 0x202);
    assert_eq!(c.stackpointer, 5);
}

#[test]
fn skp_with_key_pressed_and_released() {
    let mut c = machine_with(&[0xE2, 0x9E]);
    c.vregisters[2] = 0xA;
    c.keystate[0xA] = true;
    c.step(0).unwrap();
    assert_eq!(c.pc, 0x204);

    let mut c = machine_with(&[0xE2, 0x9E]);
    c.vregisters[2] = 0xA;
    c.step(0).unwrap();
    assert_eq!(c.pc, 0x202);
}

#[test]
fn sknp_uses_low_nibble() {
    let mut c = machine_with(&[0xE3, 0xA1]);
    c.vregisters[3] = 0x15;
    c.keystate[5] = true;
    c.step(0).unwrap();
    assert_eq!(c.pc, 0x202);
}

#[test]
fn wait_key_blocks_then_takes_lowest_key() {
    let mut c = machine_with(&[0xF4, 0x0A]);
    c.step(0).unwrap();
    assert_eq!(c.pc, 0x200);
    assert_eq!(c.state, RunState::AwaitingKey);
    c.delay_timer = 3;
    c.tick_timers();
    assert_eq!(c.delay_timer, 2);
    c.set_key(0xC, true);
    c.set_key(0x7, true);
    c.step(0).unwrap();
    assert_eq!(c.pc, 0x202);
    assert_eq!(c.vregisters[4], 0x7);
    assert_eq!(c.state, RunState::Running);
}

#[test]
fn stack_overflow_halts() {
    let mut c = machine_with(&[0x22, 0x00]);
    for _ in 0..16 {
        c.step(0).unwrap();
    }
    assert_eq!(c.stackpointer, 16);
    assert_eq!(c.step(0), Err(Fault::StackOverflow));
    assert_eq!(c.state, RunState::Halted(Fault::StackOverflow));
    let pc = c.pc;
    assert_eq!(c.step(0), Err(Fault::StackOverflow));
    assert_eq!(c.pc, pc);
}

#[test]
fn stack_underflow_halts() {
    let mut c = machine_with(&[0x00, 0xEE]);
    assert_eq!(c.step(0), Err(Fault::StackUnderflow));
    assert_eq!(c.state, RunState::Halted(Fault::StackUnderflow));
}

#[test]
fn unknown_opcode_is_skipped_when_lenient() {
    let mut c = machine_with(&[0x51, 0x21, 0x60, 0x07]);
    assert_eq!(c.step(0), Ok(()));
    assert_eq!(c.pc, 0x202);
    c.step(0).unwrap();
    assert_eq!(c.vregisters[0], 7);
}

#[test]
fn unknown_opcode_halts_when_strict() {
    let mut c = Chip8::with_config(strict());
    c.load_program(&vec![0xFF, 0xFF]).unwrap();
    assert_eq!(c.step(0), Err(Fault::Decode));
    assert_eq!(c.state, RunState::Halted(Fault::Decode));
}

#[test]
fn memory_fault_on_store_beyond_memory() {
    let mut c = machine_with(&[0xF0, 0x33]);
    c.i = 0xFFE;
    assert_eq!(c.step(0), Ok(()));
    assert_eq!(c.pc, 0x202);
    assert_eq!(c.memory[0xFFE], 0);

    let mut c = Chip8::with_config(strict());
    c.load_program(&vec![0xF0, 0x33]).unwrap();
    c.i = 0xFFE;
    assert_eq!(c.step(0), Err(Fault::Memory));
}

#[test]
fn fetch_past_end_of_memory() {
    let mut c = Chip8::new();
    c.pc = 0xFFF;
    assert_eq!(c.step(0), Ok(()));
    assert_eq!(c.pc, 0xFFF);

    let mut c = Chip8::with_config(strict());
    c.pc = 0xFFF;
    assert_eq!(c.step(0), Err(Fault::Memory));
}

#[test]
fn last_word_of_memory_can_be_fetched() {
    let mut c = Chip8::new();
    c.pc = 0xFFE;
    c.memory[0xFFE] = 0x61;
    c.memory[0xFFF] = 0x42;
    assert_eq!(c.step(0), Ok(()));
    assert_eq!(c.vregisters[1], 0x42);
    assert_eq!(c.pc, 0x1000);
    assert_eq!(c.opcode, 0x6142);
}

#[test]
fn single_cycle_random_respects_mask() {
    let mut c = machine_with(&[0xC3, 0x0F, 0xC4, 0x00]);
    c.single_cycle().unwrap();
    assert!(c.vregisters[3] <= 0x0F);
    c.vregisters[4] = 0x99;
    c.single_cycle().unwrap();
    assert_eq!(c.vregisters[4], 0);
}

#[test]
fn random_uses_given_byte() {
    let mut c = machine_with(&[0xC5, 0xF0]);
    c.step(0xAB).unwrap();
    assert_eq!(c.vregisters[5], 0xA0);
}

#[test]
fn timers_count_down_and_gate_tone() {
    let mut c = Chip8::new();
    c.delay_timer = 2;
    c.sound_timer = 1;
    assert!(c.tick_timers());
    assert_eq!((c.delay_timer, c.sound_timer), (1, 0));
    assert!(!c.tick_timers());
    assert_eq!((c.delay_timer, c.sound_timer), (0, 0));
    assert!(!c.tick_timers());
    assert_eq!((c.delay_timer, c.sound_timer), (0, 0));
}

#[test]
fn pc_moves_by_two_by_jump_or_not_at_all() {
    let mut c = machine_with(&[0x60, 0x01, 0x30, 0x01, 0x00, 0x00, 0x14, 0x00]);
    c.step(0).unwrap();
    assert_eq!(c.pc, 0x202);
    c.step(0).unwrap();
    assert_eq!(c.pc, 0x206);
    c.step(0).unwrap();
    assert_eq!(c.pc, 0x400);
}
