use chip8::cpu::Chip8;
use chip8::machine::Outcome;

fn lit(chip: &Chip8, x: usize, y: usize) -> bool {
    chip.display()[y * 8 + x / 8] & (0x80 >> (x % 8)) != 0
}

#[test]
fn load_then_add_is_addition_modulo_256() {
    let cases = [(0u8, 0u8, 0u8), (3, 200, 100), (0xF, 255, 255), (7, 1, 255), (0xE, 128, 128)];
    for &(x, nn, nn2) in &cases {
        let mut chip = Chip8::new();
        chip.load_rom(&[0x6F, 0x5A, 0x60 | x, nn, 0x70 | x, nn2]);
        for _ in 0..3 {
            assert_eq!(chip.tick(), Outcome::Executed);
        }
        let expected = ((nn as u16 + nn2 as u16) % 256) as u8;
        assert_eq!(chip.registers()[x as usize], expected);
        if x != 0xF {
            assert_eq!(chip.registers()[0xF], 0x5A);
        }
    }
}

#[test]
fn sub_flag_says_whether_there_was_no_borrow() {
    for vx in [0u8, 1, 2, 127, 128, 254, 255] {
        for vy in [0u8, 1, 2, 127, 128, 254, 255] {
            let mut chip = Chip8::new();
            chip.load_rom(&[0x64, vx, 0x69, vy, 0x84, 0x95]);
            for _ in 0..3 {
                assert_eq!(chip.tick(), Outcome::Executed);
            }
            assert_eq!(chip.registers()[0xF], if vx >= vy { 1 } else { 0 });
            assert_eq!(chip.registers()[4], vx.wrapping_sub(vy));
            assert_eq!(chip.registers()[9], vy);
        }
    }
}

#[test]
fn drawing_twice_anywhere_restores_the_display() {
    for &(x, y) in &[(0u8, 0u8), (5, 7), (60, 30), (63, 31), (200, 100), (255, 255)] {
        let mut chip = Chip8::new();
        chip.load_rom(&[
            0x60, 0x0C, 0x61, 0x04, 0xA2, 0x12, 0xD0, 0x13, 0x62, x, 0x63, y, 0xD2, 0x33, 0xD2,
            0x33, 0x00, 0x00, 0xA5, 0xFF, 0x81,
        ]);
        for _ in 0..4 {
            assert_eq!(chip.tick(), Outcome::Executed);
        }
        let before = *chip.display();
        for _ in 0..3 {
            assert_eq!(chip.tick(), Outcome::Executed);
        }
        assert_ne!(*chip.display(), before);
        assert_eq!(chip.tick(), Outcome::Executed);
        assert_eq!(*chip.display(), before);
        assert_eq!(chip.registers()[0xF], 1);
    }
}

#[test]
fn every_set_bit_of_a_sprite_flips_its_pixel() {
    let mut chip = Chip8::new();
    chip.load_rom(&[0x60, 61, 0x61, 30, 0xA2, 0x08, 0xD0, 0x13, 0x96, 0x00, 0x01]);
    for _ in 0..4 {
        assert_eq!(chip.tick(), Outcome::Executed);
    }
    let sprite = [0x96u8, 0x00, 0x01];
    for y in 0..32usize {
        for x in 0..64usize {
            let col = (x + 64 - 61) % 64;
            let row = (y + 32 - 30) % 32;
            let expected = col < 8 && row < 3 && sprite[row] & (0x80 >> col) != 0;
            assert_eq!(lit(&chip, x, y), expected);
        }
    }
}

#[test]
fn store_then_load_gives_the_registers_back() {
    for x in 0..16u8 {
        let mut program = Vec::new();
        for k in 0..16u8 {
            program.extend_from_slice(&[0x60 | k, 0x10 + 3 * k]);
        }
        program.extend_from_slice(&[0xA4, 0x00, 0xF0 | x, 0x55]);
        for k in 0..16u8 {
            program.extend_from_slice(&[0x60 | k, 0x00]);
        }
        program.extend_from_slice(&[0xF0 | x, 0x65]);
        let mut chip = Chip8::new();
        chip.load_rom(&program);
        for _ in 0..program.len() / 2 {
            assert_eq!(chip.tick(), Outcome::Executed);
        }
        for k in 0..16u8 {
            let expected = if k <= x { 0x10 + 3 * k } else { 0 };
            assert_eq!(chip.registers()[k as usize], expected);
        }
    }
}

#[test]
fn store_then_load_of_v0_to_v3() {
    let mut chip = Chip8::new();
    chip.load_rom(&[
        0x60, 0xDE, 0x61, 0xAD, 0x62, 0xBE, 0x63, 0xEF, 0xA3, 0x00, 0xF3, 0x55, 0x60, 0x00, 0x61,
        0x00, 0x62, 0x00, 0x63, 0x00, 0xF3, 0x65,
    ]);
    for _ in 0..10 {
        assert_eq!(chip.tick(), Outcome::Executed);
    }
    assert_eq!(&chip.registers()[0..4], &[0, 0, 0, 0]);
    assert_eq!(chip.tick(), Outcome::Executed);
    assert_eq!(&chip.registers()[0..4], &[0xDE, 0xAD, 0xBE, 0xEF]);
}
