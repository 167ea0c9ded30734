use chip8::chip8::Chip8;
use chip8::display::draw_sprite;
use chip8::opcode_parser::execute;
use chip8::opcodes::Instruction;

const IBM_LOGO: [u8; 132] = [
    0x00, 0xe0, 0xa2, 0x2a, 0x60, 0x0c, 0x61, 0x08, 0xd0, 0x1f, 0x70, 0x09, 0xa2, 0x39, 0xd0, 0x1f,
    0xa2, 0x48, 0x70, 0x08, 0xd0, 0x1f, 0x70, 0x04, 0xa2, 0x57, 0xd0, 0x1f, 0x70, 0x08, 0xa2, 0x66,
    0xd0, 0x1f, 0x70, 0x08, 0xa2, 0x75, 0xd0, 0x1f, 0x12, 0x28, 0xff, 0x00, 0xff, 0x00, 0x3c, 0x00,
    0x3c, 0x00, 0x3c, 0x00, 0x3c, 0x00, 0xff, 0x00, 0xff, 0xff, 0x00, 0xff, 0x00, 0x38, 0x00, 0x3f,
    0x00, 0x3f, 0x00, 0x38, 0x00, 0xff, 0x00, 0xff, 0x80, 0x00, 0xe0, 0x00, 0xe0, 0x00, 0x80, 0x00,
    0x80, 0x00, 0xe0, 0x00, 0xe0, 0x00, 0x80, 0xf8, 0x00, 0xfc, 0x00, 0x3e, 0x00, 0x3f, 0x00, 0x3b,
    0x00, 0x39, 0x00, 0xf8, 0x00, 0xf8, 0x03, 0x00, 0x07, 0x00, 0x0f, 0x00, 0xbf, 0x00, 0xfb, 0x00,
    0xf3, 0x00, 0xe3, 0x00, 0x43, 0xe0, 0x00, 0xe0, 0x00, 0x80, 0x00, 0x80, 0x00, 0x80, 0x00, 0x80,
    0x00, 0xe0, 0x00, 0xe0,
];

const IBM_PATTERN: [(usize, &str); 8] = [
    (8, "............########.#########...#####.........#####............"),
    (10, "............########.###########.######.......######............"),
    (12, "..............####.....###...###...#####.....#####.............."),
    (14, "..............####.....#######.....#######.#######.............."),
    (16, "..............####.....#######.....###.#######.###.............."),
    (18, "..............####.....###...###...###..#####..###.............."),
    (20, "............########.###########.#####...###...#####............"),
    (22, "............########.#########...#####....#....#####............"),
];

fn row_text(display: &[u8; 2048], row: usize) -> String {
    (0..64).map(|col| if display[row * 64 + col] == 1 { '#' } else { '.' }).collect()
}

#[test]
fn ibm_logo() {
    let mut c = Chip8::new();
    c.load_program(&IBM_LOGO.to_vec()).unwrap();
    for _ in 0..20 {
        c.single_cycle().unwrap();
    }
    for row in 0..32 {
        let expected = IBM_PATTERN
            .iter()
            .find(|(r, _)| *r == row)
            .map(|(_, s)| s.to_string())
            .unwrap_or_else(|| ".".repeat(64));
        assert_eq!(row_text(&c.display, row), expected, "row {}", row);
    }
}

#[test]
fn zero_glyph_drawn_twice_collides_and_clears() {
    let mut c = Chip8::new();
    c.i = 0;
    execute(&mut c, Instruction::Draw { x: 0, y: 1, n: 5 }, 0);
    assert_eq!(c.vregisters[0xF], 0);
    assert_eq!(row_text(&c.display, 0), format!("####{}", ".".repeat(60)));
    assert_eq!(row_text(&c.display, 1), format!("#..#{}", ".".repeat(60)));
    execute(&mut c, Instruction::Draw { x: 0, y: 1, n: 5 }, 0);
    assert!(c.display.iter().all(|&p| p == 0));
    assert_eq!(c.vregisters[0xF], 1);
}

#[test]
fn drawing_twice_restores_display() {
    let mut display = [0u8; 2048];
    for p in 0..2048 {
        display[p] = ((p * 7 + p / 3) % 2) as u8;
    }
    let before = display;
    let sprite = [0xA5, 0x3C, 0xFF, 0x01];
    draw_sprite(&mut display, &sprite, 62, 30);
    assert_ne!(display, before);
    draw_sprite(&mut display, &sprite, 62, 30);
    assert_eq!(display, before);
}

#[test]
fn sprite_wraps_around_edges() {
    let mut display = [0u8; 2048];
    let collision = draw_sprite(&mut display, &[0x80], 70, 35);
    assert!(!collision);
    assert_eq!(display[3 * 64 + 6], 1);
    assert_eq!(display.iter().filter(|&&p| p == 1).count(), 1);

    let mut display = [0u8; 2048];
    draw_sprite(&mut display, &[0xFF, 0xFF], 60, 31);
    assert_eq!(row_text(&display, 31), format!("####{}####", ".".repeat(56)));
    assert_eq!(row_text(&display, 0), format!("####{}####", ".".repeat(56)));
    assert_eq!(display.iter().filter(|&&p| p == 1).count(), 16);
}

#[test]
fn draw_flag_cleared_without_collision() {
    let mut c = Chip8::new();
    c.vregisters[0xF] = 1;
    c.i = 0;
    c.vregisters[1] = 10;
    execute(&mut c, Instruction::Draw { x: 1, y: 1, n: 1 }, 0);
    assert_eq!(c.vregisters[0xF], 0);
    assert_eq!(row_text(&c.display, 10), format!("{}####{}", ".".repeat(10), ".".repeat(50)));
}

#[test]
fn draw_of_zero_rows_changes_nothing() {
    let mut c = Chip8::new();
    c.vregisters[0xF] = 1;
    execute(&mut c, Instruction::Draw { x: 0, y: 0, n: 0 }, 0);
    assert_eq!(c.vregisters[0xF], 0);
    assert!(c.display.iter().all(|&p| p == 0));
}

#[test]
fn clear_screen() {
    let mut c = Chip8::new();
    c.display = [1u8; 2048];
    execute(&mut c, Instruction::ClearScreen, 0);
    assert!(c.display.iter().all(|&p| p == 0));
}

#[test]
fn draw_instruction_wraps_start_position() {
    let mut c = Chip8::new();
    c.memory[0x300] = 0x80;
    c.i = 0x300;
    c.vregisters[1] = 70;
    c.vregisters[2] = 35;
    execute(&mut c, Instruction::Draw { x: 1, y: 2, n: 1 }, 0);
    assert_eq!(c.display[3 * 64 + 6], 1);
    assert_eq!(c.display.iter().filter(|&&p| p == 1).count(), 1);
    assert_eq!(c.vregisters[0xF], 0);
}
