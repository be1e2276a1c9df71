use chip8rs::Chip8;
use chip8rs::Fault;
use chip8rs::Instruction;

fn machine_with(registers: &[(usize, u8)]) -> Chip8 {
    let mut c = Chip8::init();
    for &(r, value) in registers {
        c.v[r] = value;
    }
    c
}

fn refused(c: &Chip8, instr: Instruction, fault: Fault) {
    let mut after = c.clone();
    assert_eq!(after.execute(instr, 0), Err(fault));
    assert_eq!(&after, c);
}

#[test]
fn load_immediate() {
    let mut c = Chip8::init();
    assert_eq!(c.execute(Instruction::LdX(3, 0x42), 0), Ok(true));
    assert_eq!(c.v[3], 0x42);
    assert_eq!(c.pc, 0x200);
}

#[test]
fn add_immediate_wraps_and_leaves_flag() {
    let mut c = machine_with(&[(2, 0xFF), (0xF, 7)]);
    assert_eq!(c.execute(Instruction::AddX(2, 2), 0), Ok(true));
    assert_eq!(c.v[2], 1);
    assert_eq!(c.v[0xF], 7);
}

#[test]
fn copy_and_bitwise() {
    let mut c = machine_with(&[(1, 0b1100_1010), (2, 0b1010_0110)]);
    c.execute(Instruction::LdXY(3, 1), 0).unwrap();
    assert_eq!(c.v[3], 0b1100_1010);
    c.execute(Instruction::Or(3, 2), 0).unwrap();
    assert_eq!(c.v[3], 0b1110_1110);
    c.execute(Instruction::LdXY(4, 1), 0).unwrap();
    c.execute(Instruction::And(4, 2), 0).unwrap();
    assert_eq!(c.v[4], 0b1000_0010);
    c.execute(Instruction::LdXY(5, 1), 0).unwrap();
    c.execute(Instruction::Xor(5, 2), 0).unwrap();
    assert_eq!(c.v[5], 0b0110_1100);
    assert_eq!(c.v[1], 0b1100_1010);
    assert_eq!(c.v[2], 0b1010_0110);
}

#[test]
fn add_sets_carry_iff_sum_exceeds_255() {
    let mut c = machine_with(&[(1, 200), (2, 100)]);
    c.execute(Instruction::Add(1, 2), 0).unwrap();
    assert_eq!((c.v[1], c.v[0xF]), (44, 1));

    let mut c = machine_with(&[(1, 200), (2, 55), (0xF, 1)]);
    c.execute(Instruction::Add(1, 2), 0).unwrap();
    assert_eq!((c.v[1], c.v[0xF]), (255, 0));

    let mut c = machine_with(&[(1, 255), (2, 1)]);
    c.execute(Instruction::Add(1, 2), 0).unwrap();
    assert_eq!((c.v[1], c.v[0xF]), (0, 1));

    let mut c = machine_with(&[(1, 255), (2, 255)]);
    c.execute(Instruction::Add(1, 2), 0).unwrap();
    assert_eq!((c.v[1], c.v[0xF]), (254, 1));
}

#[test]
fn add_into_flag_register_keeps_the_flag() {
    let mut c = machine_with(&[(0xF, 200), (2, 100)]);
    c.execute(Instruction::Add(0xF, 2), 0).unwrap();
    assert_eq!(c.v[0xF], 1);
    let mut c = machine_with(&[(0xF, 20), (2, 10)]);
    c.execute(Instruction::Add(0xF, 2), 0).unwrap();
    assert_eq!(c.v[0xF], 0);
}

#[test]
fn sub_sets_flag_iff_no_borrow() {
    let mut c = machine_with(&[(1, 5), (2, 3)]);
    c.execute(Instruction::Sub(1, 2), 0).unwrap();
    assert_eq!((c.v[1], c.v[0xF]), (2, 1));

    let mut c = machine_with(&[(1, 3), (2, 5), (0xF, 1)]);
    c.execute(Instruction::Sub(1, 2), 0).unwrap();
    assert_eq!((c.v[1], c.v[0xF]), (254, 0));

    let mut c = machine_with(&[(1, 7), (2, 7)]);
    c.execute(Instruction::Sub(1, 2), 0).unwrap();
    assert_eq!((c.v[1], c.v[0xF]), (0, 1));
}

#[test]
fn subn_subtracts_the_other_way() {
    let mut c = machine_with(&[(1, 3), (2, 5)]);
    c.execute(Instruction::Subn(1, 2), 0).unwrap();
    assert_eq!((c.v[1], c.v[2], c.v[0xF]), (2, 5, 1));

    let mut c = machine_with(&[(1, 5), (2, 3), (0xF, 1)]);
    c.execute(Instruction::Subn(1, 2), 0).unwrap();
    assert_eq!((c.v[1], c.v[0xF]), (254, 0));

    let mut c = machine_with(&[(1, 9), (2, 9)]);
    c.execute(Instruction::Subn(1, 2), 0).unwrap();
    assert_eq!((c.v[1], c.v[0xF]), (0, 1));
}

#[test]
fn shift_right_keeps_low_bit() {
    let mut c = machine_with(&[(4, 0b0000_0101)]);
    c.execute(Instruction::Shr(4), 0).unwrap();
    assert_eq!((c.v[4], c.v[0xF]), (0b0000_0010, 1));

    let mut c = machine_with(&[(4, 0b1111_1110), (0xF, 1)]);
    c.execute(Instruction::Shr(4), 0).unwrap();
    assert_eq!((c.v[4], c.v[0xF]), (0b0111_1111, 0));
}

#[test]
fn shift_left_keeps_high_bit() {
    let mut c = machine_with(&[(4, 0b1000_0001)]);
    c.execute(Instruction::Shl(4), 0).unwrap();
    assert_eq!((c.v[4], c.v[0xF]), (0b0000_0010, 1));

    let mut c = machine_with(&[(4, 0b0111_1111), (0xF, 1)]);
    c.execute(Instruction::Shl(4), 0).unwrap();
    assert_eq!((c.v[4], c.v[0xF]), (0b1111_1110, 0));
}

#[test]
fn shift_of_the_flag_register_comes_last() {
    let mut c = machine_with(&[(0xF, 0b0000_0111)]);
    c.execute(Instruction::Shr(0xF), 0).unwrap();
    assert_eq!(c.v[0xF], 0);
    let mut c = machine_with(&[(0xF, 0b1000_0000)]);
    c.execute(Instruction::Shl(0xF), 0).unwrap();
    assert_eq!(c.v[0xF], 2);
}

#[test]
fn random_is_masked_by_the_immediate() {
    let mut c = Chip8::init();
    c.execute(Instruction::Rnd(1, 0x0F), 0xAB).unwrap();
    assert_eq!(c.v[1], 0x0B);
    c.execute(Instruction::Rnd(1, 0xFF), 0xAB).unwrap();
    assert_eq!(c.v[1], 0xAB);
    c.execute(Instruction::Rnd(1, 0x00), 0xAB).unwrap();
    assert_eq!(c.v[1], 0x00);
}

#[test]
fn random_from_the_generator_is_masked() {
    for _ in 0..64 {
        let mut c = Chip8::init();
        assert_eq!(c.fetch_and_execute(0xC53C), Ok(true));
        assert_eq!(c.v[5] & !0x3C, 0);
        let mut expected = Chip8::init();
        expected.v[5] = c.v[5];
        assert_eq!(c, expected);
    }
}

#[test]
fn random_from_the_generator_varies() {
    let mut seen = [false; 256];
    for _ in 0..4096 {
        let mut c = Chip8::init();
        c.fetch_and_execute(0xC0FF).unwrap();
        seen[c.v[0] as usize] = true;
    }
    assert!(seen.iter().filter(|&&s| s).count() > 64);
}

#[test]
fn jump_sets_pc_and_holds_it() {
    let mut c = Chip8::init();
    assert_eq!(c.execute(Instruction::Jp(0x345), 0), Ok(false));
    assert_eq!(c.pc, 0x345);
    let mut c = Chip8::init();
    assert_eq!(c.execute(Instruction::Jp(0x000), 0), Ok(false));
    assert_eq!(c.pc, 0x000);
}

#[test]
fn jump_with_offset() {
    let mut c = machine_with(&[(0, 0x10)]);
    assert_eq!(c.execute(Instruction::JpV0(0x300), 0), Ok(false));
    assert_eq!(c.pc, 0x310);
    let mut c = machine_with(&[(0, 0xFF)]);
    assert_eq!(c.execute(Instruction::JpV0(0xFFF), 0), Ok(false));
    assert_eq!(c.pc, 0x10FE);
}

#[test]
fn call_pushes_and_return_pops() {
    let mut c = Chip8::init();
    assert_eq!(c.execute(Instruction::Call(0x400), 0), Ok(false));
    assert_eq!((c.pc, c.sp, c.stack[0]), (0x400, 1, 0x200));
    assert_eq!(c.execute(Instruction::Ret, 0), Ok(false));
    assert_eq!((c.pc, c.sp), (0x200, 0));
}

#[test]
fn sixteen_calls_succeed_and_the_seventeenth_overflows() {
    let mut c = Chip8::init();
    for depth in 0..16u16 {
        assert_eq!(c.execute(Instruction::Call(0x300 + depth), 0), Ok(false));
        assert_eq!(c.sp, depth + 1);
    }
    assert_eq!(c.pc, 0x30F);
    refused(&c, Instruction::Call(0x400), Fault::StackOverflow { pc: 0x30F, depth: 16 });
    for depth in (0..16u16).rev() {
        assert_eq!(c.execute(Instruction::Ret, 0), Ok(false));
        assert_eq!(c.sp, depth);
    }
    assert_eq!(c.pc, 0x200);
}

#[test]
fn return_on_empty_stack_underflows() {
    let c = Chip8::init();
    refused(&c, Instruction::Ret, Fault::StackUnderflow { pc: 0x200, depth: 0 });
}

#[test]
fn skips_move_pc_by_an_extra_two() {
    let mut c = machine_with(&[(1, 7), (2, 7), (3, 8)]);
    assert_eq!(c.execute(Instruction::Se(1, 7), 0), Ok(true));
    assert_eq!(c.pc, 0x202);
    assert_eq!(c.execute(Instruction::Se(1, 8), 0), Ok(true));
    assert_eq!(c.pc, 0x202);
    assert_eq!(c.execute(Instruction::Sne(1, 8), 0), Ok(true));
    assert_eq!(c.pc, 0x204);
    assert_eq!(c.execute(Instruction::Sne(1, 7), 0), Ok(true));
    assert_eq!(c.pc, 0x204);
    assert_eq!(c.execute(Instruction::SeXY(1, 2), 0), Ok(true));
    assert_eq!(c.pc, 0x206);
    assert_eq!(c.execute(Instruction::SeXY(1, 3), 0), Ok(true));
    assert_eq!(c.pc, 0x206);
    assert_eq!(c.execute(Instruction::SneXY(1, 3), 0), Ok(true));
    assert_eq!(c.pc, 0x208);
    assert_eq!(c.execute(Instruction::SneXY(1, 2), 0), Ok(true));
    assert_eq!(c.pc, 0x208);
}

#[test]
fn skip_wraps_at_the_end_of_the_range() {
    let mut c = machine_with(&[(1, 7)]);
    c.pc = 0xFFFF;
    assert_eq!(c.execute(Instruction::Se(1, 7), 0), Ok(true));
    assert_eq!(c.pc, 0x0001);
}

#[test]
fn key_skips() {
    let mut c = machine_with(&[(1, 0xA), (2, 0x3)]);
    c.key[0xA] = 1;
    assert_eq!(c.execute(Instruction::Skp(1), 0), Ok(true));
    assert_eq!(c.pc, 0x202);
    assert_eq!(c.execute(Instruction::Skp(2), 0), Ok(true));
    assert_eq!(c.pc, 0x202);
    assert_eq!(c.execute(Instruction::Sknp(2), 0), Ok(true));
    assert_eq!(c.pc, 0x204);
    assert_eq!(c.execute(Instruction::Sknp(1), 0), Ok(true));
    assert_eq!(c.pc, 0x204);
}

#[test]
fn key_above_fifteen_is_refused() {
    let c = machine_with(&[(1, 16)]);
    refused(&c, Instruction::Skp(1), Fault::KeyOutOfBounds { pc: 0x200, key: 16 });
    refused(&c, Instruction::Sknp(1), Fault::KeyOutOfBounds { pc: 0x200, key: 16 });
    let c = machine_with(&[(1, 255)]);
    refused(&c, Instruction::Skp(1), Fault::KeyOutOfBounds { pc: 0x200, key: 255 });
}

#[test]
fn index_register() {
    let mut c = machine_with(&[(1, 0x10)]);
    c.execute(Instruction::LdI(0xABC), 0).unwrap();
    assert_eq!(c.i, 0xABC);
    c.execute(Instruction::AddI(1), 0).unwrap();
    assert_eq!(c.i, 0xACC);
    c.i = 0xFFFF;
    c.execute(Instruction::AddI(1), 0).unwrap();
    assert_eq!(c.i, 0x000F);
}

#[test]
fn font_address_is_five_times_the_digit() {
    let mut c = machine_with(&[(1, 0), (2, 0xA), (3, 0xFF)]);
    c.execute(Instruction::LdF(1), 0).unwrap();
    assert_eq!(c.i, 0);
    c.execute(Instruction::LdF(2), 0).unwrap();
    assert_eq!(c.i, 50);
    c.execute(Instruction::LdF(3), 0).unwrap();
    assert_eq!(c.i, 1275);
}

#[test]
fn timers_are_loaded_and_read() {
    let mut c = machine_with(&[(1, 0x33), (2, 0x44)]);
    c.execute(Instruction::LdDtVx(1), 0).unwrap();
    assert_eq!((c.delay_timer, c.sound_timer), (0x33, 0));
    c.execute(Instruction::LdSt(2), 0).unwrap();
    assert_eq!((c.delay_timer, c.sound_timer), (0x33, 0x44));
    c.execute(Instruction::LdVxDt(5), 0).unwrap();
    assert_eq!(c.v[5], 0x33);
    assert_eq!(c.delay_timer, 0x33);
}

#[test]
fn bcd_digits() {
    let mut c = machine_with(&[(1, 254), (2, 7), (3, 0), (4, 100)]);
    c.i = 0x300;
    c.execute(Instruction::LdB(1), 0).unwrap();
    assert_eq!(&c.memory[0x300..0x303], &[2, 5, 4]);
    c.execute(Instruction::LdB(2), 0).unwrap();
    assert_eq!(&c.memory[0x300..0x303], &[0, 0, 7]);
    c.execute(Instruction::LdB(3), 0).unwrap();
    assert_eq!(&c.memory[0x300..0x303], &[0, 0, 0]);
    c.execute(Instruction::LdB(4), 0).unwrap();
    assert_eq!(&c.memory[0x300..0x303], &[1, 0, 0]);
    assert_eq!(c.i, 0x300);
}

#[test]
fn bcd_at_the_end_of_memory() {
    let mut c = machine_with(&[(1, 123)]);
    c.i = 4093;
    c.execute(Instruction::LdB(1), 0).unwrap();
    assert_eq!(&c.memory[4093..4096], &[1, 2, 3]);
    c.i = 4094;
    refused(&c, Instruction::LdB(1), Fault::MemoryOutOfBounds { pc: 0x200, address: 4096 });
    c.i = 0xFFFF;
    refused(&c, Instruction::LdB(1), Fault::MemoryOutOfBounds { pc: 0x200, address: 0x10001 });
}

#[test]
fn register_dump_is_inclusive() {
    let mut c = machine_with(&[(0, 10), (1, 11), (2, 12), (3, 13)]);
    c.i = 0x300;
    c.memory[0x303] = 0xEE;
    assert_eq!(c.execute(Instruction::LdIx(2), 0), Ok(true));
    assert_eq!(&c.memory[0x300..0x304], &[10, 11, 12, 0xEE]);
    assert_eq!(c.i, 0x300);
    assert_eq!(c.execute(Instruction::LdIx(0), 0), Ok(true));
    assert_eq!(&c.memory[0x300..0x304], &[10, 11, 12, 0xEE]);
}

#[test]
fn register_dump_of_all_registers() {
    let mut c = Chip8::init();
    for r in 0..16 {
        c.v[r] = 0xA0 + r as u8;
    }
    c.i = 4080;
    c.execute(Instruction::LdIx(0xF), 0).unwrap();
    for r in 0..16 {
        assert_eq!(c.memory[4080 + r], 0xA0 + r as u8);
    }
    c.i = 4081;
    refused(&c, Instruction::LdIx(0xF), Fault::MemoryOutOfBounds { pc: 0x200, address: 4096 });
}

#[test]
fn register_load_is_inclusive() {
    let mut c = machine_with(&[(3, 0x77)]);
    c.i = 0x300;
    c.memory[0x300] = 1;
    c.memory[0x301] = 2;
    c.memory[0x302] = 3;
    c.memory[0x303] = 4;
    assert_eq!(c.execute(Instruction::LdVxI(2), 0), Ok(true));
    assert_eq!(&c.v[0..4], &[1, 2, 3, 0x77]);
    assert_eq!(c.i, 0x300);
    c.i = 4095;
    refused(&c, Instruction::LdVxI(1), Fault::MemoryOutOfBounds { pc: 0x200, address: 4096 });
    c.execute(Instruction::LdVxI(0), 0).unwrap();
    assert_eq!(c.v[0], 0);
}

#[test]
fn clear_screen() {
    let mut c = Chip8::init();
    c.gfx[0] = 1;
    c.gfx[2047] = 1;
    assert_eq!(c.execute(Instruction::Cls, 0), Ok(true));
    assert_eq!(c.gfx, vec![0u8; 2048]);
}

#[test]
fn operands_out_of_range_are_refused() {
    let mut c = Chip8::init();
    c.pc = 0x222;
    refused(&c, Instruction::LdX(16, 1), Fault::OperandOutOfRange { pc: 0x222 });
    refused(&c, Instruction::Add(1, 200), Fault::OperandOutOfRange { pc: 0x222 });
    refused(&c, Instruction::Jp(0x1000), Fault::OperandOutOfRange { pc: 0x222 });
    refused(&c, Instruction::Drw(0, 0, 16), Fault::OperandOutOfRange { pc: 0x222 });
    refused(&c, Instruction::LdK(16), Fault::OperandOutOfRange { pc: 0x222 });
}

#[test]
fn key_read_takes_the_lowest_pressed_key() {
    let mut c = machine_with(&[(4, 0x99)]);
    c.key[0xC] = 1;
    c.key[0x5] = 1;
    c.key[0x9] = 1;
    assert_eq!(c.execute(Instruction::LdK(4), 0), Ok(true));
    assert_eq!(c.v[4], 5);
    assert!(!c.key_flag);
}

#[test]
fn key_read_without_key_waits() {
    let mut c = machine_with(&[(4, 0x99)]);
    assert_eq!(c.execute(Instruction::LdK(4), 0), Ok(false));
    assert_eq!(c.v[4], 0x99);
    assert!(c.key_flag);
    assert_eq!(c.key_register, 4);
    assert_eq!(c.pc, 0x200);
    let waiting = c.clone();
    assert_eq!(c.execute(Instruction::LdK(4), 0), Ok(false));
    assert_eq!(c, waiting);
    c.key[0] = 1;
    assert_eq!(c.execute(Instruction::LdK(4), 0), Ok(true));
    assert_eq!(c.v[4], 0);
    assert!(!c.key_flag);
}

#[test]
fn every_fault_but_the_unknown_word_is_fatal() {
    assert!(Fault::UnknownInstruction { pc: 0x200, word: 0 }.is_recoverable());
    assert!(!Fault::OperandOutOfRange { pc: 0x200 }.is_recoverable());
    assert!(!Fault::StackOverflow { pc: 0x200, depth: 16 }.is_recoverable());
    assert!(!Fault::StackUnderflow { pc: 0x200, depth: 0 }.is_recoverable());
    assert!(!Fault::MemoryOutOfBounds { pc: 0x200, address: 4096 }.is_recoverable());
    assert!(!Fault::KeyOutOfBounds { pc: 0x200, key: 16 }.is_recoverable());
    assert!(!Fault::ImageTooLarge { len: 4000 }.is_recoverable());
}
