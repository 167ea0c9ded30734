use chip8::args::{hex_to_rgb, parse_color, parse_hz, parse_number, Rgb};
use chip8::chip8::Chip8;
use chip8::input::{keypad_key, parse_input, InputAction, Key};
use chip8::render::render_texture_to_target;
use chip8::timing::{run_tick, Scheduler};

#[test]
fn hex_to_rgb_splits_channels() {
    assert_eq!(hex_to_rgb(0x123456), Rgb { r: 0x12, g: 0x34, b: 0x56 });
    assert_eq!(hex_to_rgb(0xFFFFFF), Rgb { r: 0xFF, g: 0xFF, b: 0xFF });
    assert_eq!(hex_to_rgb(0xAB000001), Rgb { r: 0, g: 0, b: 1 });
}

#[test]
fn color_parsing() {
    assert_eq!(parse_color("FFFFFF"), Some(Rgb { r: 255, g: 255, b: 255 }));
    assert_eq!(parse_color("ff8000"), Some(Rgb { r: 255, g: 128, b: 0 }));
    assert_eq!(parse_color("000000"), Some(Rgb { r: 0, g: 0, b: 0 }));
    assert_eq!(parse_color(""), None);
    assert_eq!(parse_color("GG0000"), None);
    assert_eq!(parse_color("1FFFFFFFF"), None);
}

#[test]
fn rate_parsing() {
    assert_eq!(parse_hz("500"), Some(500));
    assert_eq!(parse_hz("0"), None);
    assert_eq!(parse_hz("5a"), None);
    assert_eq!(parse_hz(""), None);
    assert_eq!(parse_hz("18446744073709551615"), Some(u64::MAX));
    assert_eq!(parse_hz("18446744073709551616"), None);
    assert_eq!(parse_number(b"ff", 10), None);
    assert_eq!(parse_number(b"fF", 16), Some(255));
}

#[test]
fn leading_plus_sign() {
    assert_eq!(parse_hz("+500"), Some(500));
    assert_eq!(parse_color("+FF8000"), Some(Rgb { r: 255, g: 128, b: 0 }));
    assert_eq!(parse_number(b"+fF", 16), Some(255));
    assert_eq!(parse_hz("+"), None);
    assert_eq!(parse_hz("++5"), None);
    assert_eq!(parse_hz("-5"), None);
    assert_eq!(parse_hz("5+"), None);
}

#[test]
fn render_colours_pixels() {
    let mut display = [0u8; 2048];
    display[0] = 1;
    display[2047] = 1;
    let fg = Rgb { r: 1, g: 2, b: 3 };
    let bg = Rgb { r: 9, g: 8, b: 7 };
    let mut frame = vec![0u8; 8192];
    render_texture_to_target(&display, &mut frame, &fg, &bg);
    assert_eq!(&frame[0..8], &[1, 2, 3, 255, 9, 8, 7, 255]);
    assert_eq!(&frame[8188..8192], &[1, 2, 3, 255]);
}

#[test]
fn render_short_frame_leaves_partial_pixel() {
    let display = [1u8; 2048];
    let fg = Rgb { r: 1, g: 2, b: 3 };
    let bg = Rgb { r: 9, g: 8, b: 7 };
    let mut frame = vec![0xEEu8; 10];
    render_texture_to_target(&display, &mut frame, &fg, &bg);
    assert_eq!(frame, vec![1, 2, 3, 255, 1, 2, 3, 255, 0xEE, 0xEE]);
}

#[test]
fn keypad_layout() {
    assert_eq!(keypad_key(Key::Key1), Some(0x1));
    assert_eq!(keypad_key(Key::Key4), Some(0xC));
    assert_eq!(keypad_key(Key::X), Some(0x0));
    assert_eq!(keypad_key(Key::V), Some(0xF));
    assert_eq!(keypad_key(Key::F5), None);
}

#[test]
fn key_events() {
    let mut c = Chip8::new();
    assert_eq!(parse_input(Key::Q, true, &mut c), InputAction::Nothing);
    assert!(c.keystate[0x4]);
    assert_eq!(parse_input(Key::Q, false, &mut c), InputAction::Nothing);
    assert!(!c.keystate[0x4]);
    assert_eq!(parse_input(Key::F5, true, &mut c), InputAction::SaveState);
    assert_eq!(parse_input(Key::F5, false, &mut c), InputAction::Nothing);
    assert_eq!(parse_input(Key::F6, true, &mut c), InputAction::LoadState);
    assert_eq!(parse_input(Key::Other, true, &mut c), InputAction::Nothing);
    assert_eq!(c.keystate, [false; 16]);
}

fn timer_ticks_over(hz: u64, instruction_ticks: u64) -> u64 {
    let mut s = Scheduler::new(hz).unwrap();
    let mut due = 0;
    for _ in 0..instruction_ticks {
        due += s.tick();
    }
    due
}

#[test]
fn sixty_timer_ticks_per_second() {
    assert_eq!(timer_ticks_over(500, 500), 60);
    assert_eq!(timer_ticks_over(60, 60), 60);
    assert_eq!(timer_ticks_over(700, 700), 60);
    assert_eq!(timer_ticks_over(30, 30), 60);
    assert_eq!(timer_ticks_over(1, 1), 60);
    assert_eq!(timer_ticks_over(500, 250), 30);
    assert!(Scheduler::new(0).is_none());
    assert_eq!(Scheduler::new(500).unwrap().period_micros(), 2000);
}

#[test]
fn delay_timer_over_one_second() {
    let mut c = Chip8::new();
    c.delay_timer = 120;
    let mut s = Scheduler::new(500).unwrap();
    for _ in 0..500 {
        for _ in 0..s.tick() {
            c.tick_timers();
        }
    }
    assert_eq!(c.delay_timer, 60);
    for _ in 0..100 {
        c.tick_timers();
    }
    assert_eq!(c.delay_timer, 0);
}

#[test]
fn run_tick_drives_timers_and_cycles() {
    let mut c = Chip8::new();
    c.load_program(&vec![0x12, 0x00]).unwrap();
    c.delay_timer = 120;
    c.sound_timer = 2;
    let mut s = Scheduler::new(500).unwrap();
    let mut gates = Vec::new();
    for _ in 0..500 {
        let (tone, outcome) = run_tick(&mut c, &mut s);
        assert_eq!(outcome, Ok(()));
        if let Some(on) = tone {
            gates.push(on);
        }
    }
    assert_eq!(c.delay_timer, 60);
    assert_eq!(c.sound_timer, 0);
    assert_eq!(c.pc, 0x200);
    assert_eq!(gates.len(), 60);
    assert_eq!(&gates[0..3], &[true, true, false]);
}
