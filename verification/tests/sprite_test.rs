use chip8rs::sprite::draw_sprite;
use chip8rs::Chip8;
use chip8rs::Fault;
use chip8rs::Instruction;

fn lit(c: &Chip8) -> Vec<usize> {
    (0..2048).filter(|&p| c.gfx[p] == 1).collect()
}

#[test]
fn draw_the_glyph_of_zero() {
    let mut c = Chip8::init();
    c.v[0xF] = 1;
    assert_eq!(c.execute(Instruction::Drw(0, 1, 5), 0), Ok(true));
    // F0 90 90 90 F0
    assert_eq!(
        lit(&c),
        vec![0, 1, 2, 3, 64, 67, 128, 131, 192, 195, 256, 257, 258, 259]
    );
    assert_eq!(c.v[0xF], 0);
    assert_eq!(c.draw_flag, 1);
    assert_eq!(c.i, 0);
}

#[test]
fn draw_at_a_position() {
    let mut c = Chip8::init();
    c.v[2] = 10;
    c.v[3] = 4;
    c.i = 5;
    // the glyph of one: 20 60 20 20 70
    c.execute(Instruction::Drw(2, 3, 5), 0).unwrap();
    assert_eq!(
        lit(&c),
        vec![
            4 * 64 + 12,
            5 * 64 + 11,
            5 * 64 + 12,
            6 * 64 + 12,
            7 * 64 + 12,
            8 * 64 + 11,
            8 * 64 + 12,
            8 * 64 + 13
        ]
    );
    assert_eq!(c.v[0xF], 0);
}

#[test]
fn draw_twice_restores_the_screen_and_flags_collision() {
    let mut c = Chip8::init();
    c.gfx[70] = 1;
    let before = c.gfx.clone();
    c.v[0] = 3;
    c.v[1] = 2;
    c.execute(Instruction::Drw(0, 1, 5), 0).unwrap();
    assert_eq!(c.v[0xF], 0);
    assert_ne!(c.gfx, before);
    c.execute(Instruction::Drw(0, 1, 5), 0).unwrap();
    assert_eq!(c.v[0xF], 1);
    assert_eq!(c.gfx, before);
}

#[test]
fn collision_only_where_a_lit_pixel_goes_off() {
    let mut c = Chip8::init();
    // pixel 1 of row 1 is not part of the glyph of zero (90 = 1001 0000)
    c.gfx[65] = 1;
    c.execute(Instruction::Drw(0, 0, 5), 0).unwrap();
    assert_eq!(c.v[0xF], 0);
    assert_eq!(c.gfx[65], 1);

    let mut c = Chip8::init();
    c.gfx[67] = 1;
    c.execute(Instruction::Drw(0, 0, 5), 0).unwrap();
    assert_eq!(c.v[0xF], 1);
    assert_eq!(c.gfx[67], 0);
    assert_eq!(c.gfx[64], 1);
}

#[test]
fn flag_is_reset_by_every_draw() {
    let mut c = Chip8::init();
    c.v[0xF] = 1;
    c.i = 0x300;
    c.execute(Instruction::Drw(0, 0, 3), 0).unwrap();
    assert_eq!(c.v[0xF], 0);
    assert_eq!(lit(&c), Vec::<usize>::new());
}

#[test]
fn draw_wraps_around_the_edges() {
    let mut c = Chip8::init();
    c.v[0] = 62;
    c.v[1] = 31;
    c.execute(Instruction::Drw(0, 1, 2), 0).unwrap();
    // row 0 of the glyph (F0) on screen row 31, columns 62, 63, 0, 1;
    // row 1 (90) on screen row 0, columns 62 and 1.
    assert_eq!(lit(&c), vec![1, 62, 1984, 1985, 2046, 2047]);
    assert_eq!(c.v[0xF], 0);
}

#[test]
fn draw_position_counts_modulo_the_screen() {
    let mut c = Chip8::init();
    c.v[0] = 200;
    c.v[1] = 100;
    c.execute(Instruction::Drw(0, 1, 1), 0).unwrap();
    // 200 mod 64 = 8, 100 mod 32 = 4
    assert_eq!(lit(&c), vec![4 * 64 + 8, 4 * 64 + 9, 4 * 64 + 10, 4 * 64 + 11]);
}

#[test]
fn draw_of_no_rows_changes_only_the_flags() {
    let mut c = Chip8::init();
    c.v[0xF] = 1;
    c.draw_flag = 0;
    c.i = 0xFFFF;
    c.gfx[5] = 1;
    assert_eq!(c.execute(Instruction::Drw(0, 0, 0), 0), Ok(true));
    assert_eq!(lit(&c), vec![5]);
    assert_eq!(c.v[0xF], 0);
    assert_eq!(c.draw_flag, 1);
}

#[test]
fn draw_beyond_memory_is_refused() {
    let mut c = Chip8::init();
    c.i = 4091;
    c.memory[4095] = 0x80;
    c.execute(Instruction::Drw(0, 0, 5), 0).unwrap();
    assert_eq!(lit(&c), vec![4 * 64]);
    c.i = 4092;
    let before = c.clone();
    assert_eq!(
        c.execute(Instruction::Drw(0, 0, 5), 0),
        Err(Fault::MemoryOutOfBounds { pc: 0x200, address: 4096 })
    );
    assert_eq!(c, before);
    c.i = 0xFFFF;
    assert_eq!(
        c.execute(Instruction::Drw(0, 0, 15), 0),
        Err(Fault::MemoryOutOfBounds { pc: 0x200, address: 0x1000D })
    );
    let mut expected = before;
    expected.i = 0xFFFF;
    assert_eq!(c, expected);
}

#[test]
fn draw_reads_the_position_before_it_resets_the_flag() {
    let mut c = Chip8::init();
    c.v[0xF] = 3;
    c.execute(Instruction::Drw(0xF, 0, 1), 0).unwrap();
    assert_eq!(lit(&c), vec![3, 4, 5, 6]);
    assert_eq!(c.v[0xF], 0);
}

#[test]
fn draw_sprite_on_a_bare_screen() {
    let mut gfx = vec![0u8; 2048];
    let memory = vec![0xFFu8, 0x81];
    assert!(!draw_sprite(&mut gfx, &memory, 0, 2, 0, 0));
    let lit: Vec<usize> = (0..2048).filter(|&p| gfx[p] == 1).collect();
    assert_eq!(lit, vec![0, 1, 2, 3, 4, 5, 6, 7, 64, 71]);
    assert!(draw_sprite(&mut gfx, &memory, 1, 1, 7, 0));
    let lit: Vec<usize> = (0..2048).filter(|&p| gfx[p] == 1).collect();
    assert_eq!(lit, vec![0, 1, 2, 3, 4, 5, 6, 14, 64, 71]);
}
