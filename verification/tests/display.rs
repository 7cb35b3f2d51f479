use chip8::bitmap::pixel_at;
use chip8::cpu::Chip8;
use chip8::machine::{Fault, Outcome};

fn machine_with(program: &[u8]) -> Chip8 {
    let mut chip = Chip8::new();
    chip.load_rom(program);
    chip
}

fn run(chip: &mut Chip8, ticks: usize) {
    for _ in 0..ticks {
        assert_eq!(chip.tick(), Outcome::Executed);
    }
}

fn lit(chip: &Chip8, x: usize, y: usize) -> bool {
    chip.display()[y * 8 + x / 8] & (0x80 >> (x % 8)) != 0
}

#[test]
fn draw_one_row_at_the_origin() {
    let mut chip = machine_with(&[0xA2, 0x04, 0xD0, 0x11, 0xF0]);
    run(&mut chip, 2);
    assert_eq!(chip.display()[0], 0xF0);
    assert_eq!(chip.registers()[0xF], 0);
    assert_eq!(chip.pc(), 0x204);
    for index in 1..256 {
        assert_eq!(chip.display()[index], 0);
    }
}

#[test]
fn draw_twice_restores_the_display_and_collides() {
    let mut chip = machine_with(&[0xA2, 0x06, 0xD0, 0x13, 0xD0, 0x13, 0x3C, 0xC3, 0xFF]);
    run(&mut chip, 2);
    assert_eq!(chip.display()[0], 0x3C);
    assert_eq!(chip.display()[8], 0xC3);
    assert_eq!(chip.display()[16], 0xFF);
    assert_eq!(chip.registers()[0xF], 0);
    run(&mut chip, 1);
    assert_eq!(*chip.display(), [0u8; 256]);
    assert_eq!(chip.registers()[0xF], 1);
}

#[test]
fn draw_twice_over_a_picture_restores_it() {
    let mut chip = machine_with(&[
        0xA2, 0x10, 0xD0, 0x12, 0x61, 0x03, 0x62, 0x01, 0xA2, 0x12, 0xD1, 0x22, 0xD1, 0x22, 0x00,
        0x00, 0xAA, 0x55, 0xF0, 0x3F,
    ]);
    run(&mut chip, 2);
    let picture = *chip.display();
    run(&mut chip, 4);
    assert_ne!(*chip.display(), picture);
    run(&mut chip, 1);
    assert_eq!(*chip.display(), picture);
    assert_eq!(chip.registers()[0xF], 1);
}

#[test]
fn drawing_an_empty_sprite_twice_does_not_collide() {
    let mut chip = machine_with(&[0xA3, 0x00, 0xD0, 0x12, 0xD0, 0x12]);
    run(&mut chip, 3);
    assert_eq!(*chip.display(), [0u8; 256]);
    assert_eq!(chip.registers()[0xF], 0);
}

#[test]
fn a_second_draw_over_pixels_that_were_all_lit_does_not_collide() {
    let mut chip = machine_with(&[0xA2, 0x08, 0xD0, 0x11, 0xD0, 0x11, 0xD0, 0x11, 0xFF]);
    run(&mut chip, 2);
    assert_eq!(chip.display()[0], 0xFF);
    run(&mut chip, 1);
    assert_eq!(chip.display()[0], 0x00);
    assert_eq!(chip.registers()[0xF], 1);
    run(&mut chip, 1);
    assert_eq!(chip.display()[0], 0xFF);
    assert_eq!(chip.registers()[0xF], 0);
}

#[test]
fn draw_with_zero_rows_only_clears_the_flag() {
    let mut chip = machine_with(&[0x6F, 0x01, 0xAF, 0xFF, 0xD0, 0x10]);
    run(&mut chip, 3);
    assert_eq!(*chip.display(), [0u8; 256]);
    assert_eq!(chip.registers()[0xF], 0);
    assert_eq!(chip.pc(), 0x206);
}

#[test]
fn draw_between_two_bytes() {
    let mut chip = machine_with(&[0x60, 0x04, 0xA2, 0x06, 0xD0, 0x11, 0xFF]);
    run(&mut chip, 3);
    assert_eq!(chip.display()[0], 0x0F);
    assert_eq!(chip.display()[1], 0xF0);
    assert_eq!(chip.display()[2], 0x00);
}

#[test]
fn draw_wraps_round_the_right_edge() {
    let mut chip = machine_with(&[0x60, 60, 0x61, 2, 0xA2, 0x08, 0xD0, 0x11, 0xFF]);
    run(&mut chip, 4);
    assert_eq!(chip.display()[2 * 8 + 7], 0x0F);
    assert_eq!(chip.display()[2 * 8], 0xF0);
    assert_eq!(chip.display()[3 * 8], 0x00);
    assert_eq!(chip.display()[8 + 7], 0x00);
}

#[test]
fn draw_wraps_round_the_bottom_edge() {
    let mut chip = machine_with(&[0x61, 31, 0xA2, 0x06, 0xD0, 0x12, 0x80, 0x40]);
    run(&mut chip, 3);
    assert_eq!(chip.display()[31 * 8], 0x80);
    assert_eq!(chip.display()[0], 0x40);
}

#[test]
fn draw_takes_the_coordinates_modulo_the_display_size() {
    let mut chip = machine_with(&[0x60, 68, 0x61, 33, 0xA2, 0x08, 0xD0, 0x11, 0xFF]);
    run(&mut chip, 4);
    assert_eq!(chip.display()[8], 0x0F);
    assert_eq!(chip.display()[9], 0xF0);

    let mut chip = machine_with(&[0x60, 255, 0x61, 255, 0xA2, 0x08, 0xD0, 0x11, 0xC0]);
    run(&mut chip, 4);
    assert!(lit(&chip, 63, 31));
    assert!(lit(&chip, 0, 31));
    assert_eq!(chip.display()[31 * 8 + 7], 0x01);
    assert_eq!(chip.display()[31 * 8], 0x80);
}

#[test]
fn a_partial_overlap_collides_and_leaves_the_difference() {
    let mut chip = machine_with(&[
        0xA2, 0x0A, 0xD0, 0x11, 0xA2, 0x0B, 0xD0, 0x11, 0x00, 0x00, 0xF0, 0x3C,
    ]);
    run(&mut chip, 4);
    assert_eq!(chip.display()[0], 0xCC);
    assert_eq!(chip.registers()[0xF], 1);
}

#[test]
fn drawing_beside_lit_pixels_does_not_collide() {
    let mut chip = machine_with(&[
        0xA2, 0x0A, 0xD0, 0x11, 0xA2, 0x0B, 0xD0, 0x11, 0x00, 0x00, 0xF0, 0x0F,
    ]);
    run(&mut chip, 4);
    assert_eq!(chip.display()[0], 0xFF);
    assert_eq!(chip.registers()[0xF], 0);
}

#[test]
fn draw_reads_the_coordinates_before_it_clears_the_flag() {
    let mut chip = machine_with(&[0x6F, 0x08, 0xA2, 0x06, 0xDF, 0xF1, 0xFF]);
    run(&mut chip, 3);
    assert_eq!(chip.display()[8 * 8 + 1], 0xFF);
    assert_eq!(chip.registers()[0xF], 0);
}

#[test]
fn draw_faults_when_the_sprite_leaves_memory() {
    let mut chip = machine_with(&[0xAF, 0xFF, 0xD0, 0x11]);
    run(&mut chip, 2);
    assert!(!chip.halted());

    let mut chip = machine_with(&[0x6F, 0x07, 0xAF, 0xFF, 0xD0, 0x12]);
    run(&mut chip, 2);
    assert_eq!(chip.tick(), Outcome::Faulted(Fault::Address));
    assert!(chip.halted());
    assert_eq!(chip.pc(), 0x204);
    assert_eq!(chip.registers()[0xF], 7);
    assert_eq!(*chip.display(), [0u8; 256]);
}

#[test]
fn clear_turns_every_pixel_off() {
    let mut chip = machine_with(&[0xA2, 0x06, 0xD0, 0x12, 0x00, 0xE0, 0xFF, 0xFF]);
    run(&mut chip, 2);
    assert_ne!(*chip.display(), [0u8; 256]);
    run(&mut chip, 1);
    assert_eq!(*chip.display(), [0u8; 256]);
    assert_eq!(chip.pc(), 0x206);
}

#[test]
fn clear_draws_clear_leaves_a_blank_display() {
    let mut chip = machine_with(&[
        0x00, 0xE0, 0xA2, 0x0E, 0xD0, 0x12, 0x60, 0x1E, 0xD0, 0x02, 0xD0, 0x12, 0x00, 0xE0, 0xFF,
        0x81,
    ]);
    run(&mut chip, 7);
    assert_eq!(*chip.display(), [0u8; 256]);
}

#[test]
fn partial_clear_zeroes_the_first_bytes() {
    let mut chip = machine_with(&[
        0xA2, 0x0A, 0xD0, 0x11, 0x60, 0x10, 0xD0, 0x11, 0x00, 0xC2, 0xFF,
    ]);
    run(&mut chip, 4);
    assert_eq!(&chip.display()[0..4], &[0xFF, 0x00, 0xFF, 0x00]);
    run(&mut chip, 1);
    assert_eq!(&chip.display()[0..4], &[0x00, 0x00, 0xFF, 0x00]);
    assert_eq!(chip.pc(), 0x20A);
}

#[test]
fn partial_clear_of_nothing() {
    let mut chip = Chip8::new();
    chip.load_rom(&[0xA2, 0x04, 0xD0, 0x11, 0xFF]);
    run(&mut chip, 2);
    chip.op_scrd(0x00C0);
    assert_eq!(chip.display()[0], 0xFF);
    chip.op_scrd(0x00CF);
    assert_eq!(chip.display()[0], 0x00);
}

#[test]
fn pixels_are_read_leftmost_bit_first() {
    let mut display = [0u8; 256];
    display[0] = 0x80;
    display[7] = 0x01;
    display[8] = 0x40;
    display[255] = 0x03;
    assert!(pixel_at(&display, 0, 0));
    assert!(!pixel_at(&display, 1, 0));
    assert!(pixel_at(&display, 63, 0));
    assert!(!pixel_at(&display, 62, 0));
    assert!(pixel_at(&display, 1, 1));
    assert!(!pixel_at(&display, 0, 1));
    assert!(pixel_at(&display, 62, 31));
    assert!(pixel_at(&display, 63, 31));
    assert!(!pixel_at(&display, 61, 31));
    let lit = (0..32)
        .flat_map(|y| (0..64).map(move |x| (x, y)))
        .filter(|&(x, y)| pixel_at(&display, x, y))
        .count();
    assert_eq!(lit, 5);
}

#[test]
fn no_pixel_is_lit_outside_the_display() {
    let display = [0xFFu8; 256];
    assert!(pixel_at(&display, 63, 31));
    assert!(!pixel_at(&display, 64, 0));
    assert!(!pixel_at(&display, 0, 32));
    assert!(!pixel_at(&display, usize::MAX, usize::MAX));
}
