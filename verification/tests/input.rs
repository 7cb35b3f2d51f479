use chip8::cpu::Chip8;
use chip8::keys::{get_key_mask, KeyMask};
use chip8::machine::Outcome;

fn machine_with(program: &[u8]) -> Chip8 {
    let mut chip = Chip8::new();
    chip.load_rom(program);
    chip
}

fn run(chip: &mut Chip8, ticks: usize) {
    for _ in 0..ticks {
        assert_eq!(chip.tick(), Outcome::Executed);
    }
}

#[test]
fn key_masks_are_single_bits() {
    assert_eq!(KeyMask::Key0.mask(), 1);
    assert_eq!(KeyMask::Key1.mask(), 1 << 1);
    assert_eq!(KeyMask::Key2.mask(), 1 << 2);
    assert_eq!(KeyMask::Key3.mask(), 1 << 3);
    assert_eq!(KeyMask::Key4.mask(), 1 << 4);
    assert_eq!(KeyMask::Key5.mask(), 1 << 5);
    assert_eq!(KeyMask::Key6.mask(), 1 << 6);
    assert_eq!(KeyMask::Key7.mask(), 1 << 7);
    assert_eq!(KeyMask::Key8.mask(), 1 << 8);
    assert_eq!(KeyMask::Key9.mask(), 1 << 9);
    assert_eq!(KeyMask::KeyA.mask(), 1 << 10);
    assert_eq!(KeyMask::KeyB.mask(), 1 << 11);
    assert_eq!(KeyMask::KeyC.mask(), 1 << 12);
    assert_eq!(KeyMask::KeyD.mask(), 1 << 13);
    assert_eq!(KeyMask::KeyE.mask(), 1 << 14);
    assert_eq!(KeyMask::KeyF.mask(), 1 << 15);
}

#[test]
fn host_keys_map_to_their_masks() {
    assert_eq!(get_key_mask('0' as i32), 0x0001);
    assert_eq!(get_key_mask('7' as i32), 0x0080);
    assert_eq!(get_key_mask('9' as i32), 0x0200);
    assert_eq!(get_key_mask('a' as i32), 0x0400);
    assert_eq!(get_key_mask('c' as i32), 0x1000);
    assert_eq!(get_key_mask('f' as i32), 0x8000);
}

#[test]
fn other_host_keys_map_to_no_key() {
    assert_eq!(get_key_mask('g' as i32), 0);
    assert_eq!(get_key_mask('A' as i32), 0);
    assert_eq!(get_key_mask('/' as i32), 0);
    assert_eq!(get_key_mask(':' as i32), 0);
    assert_eq!(get_key_mask('`' as i32), 0);
    assert_eq!(get_key_mask(0), 0);
    assert_eq!(get_key_mask(-1), 0);
    assert_eq!(get_key_mask(0x4000_0059), 0);
}

#[test]
fn set_keypad_keeps_the_mask_before() {
    let mut chip = Chip8::new();
    chip.set_keypad(0x0012);
    assert_eq!(chip.keypad(), 0x0012);
    assert_eq!(chip.old_keypad(), 0x0000);
    chip.set_keypad(0x0100);
    assert_eq!(chip.keypad(), 0x0100);
    assert_eq!(chip.old_keypad(), 0x0012);
}

#[test]
fn key_down_and_key_up_change_single_bits() {
    let mut chip = Chip8::new();
    chip.on_key_down(KeyMask::Key2.mask());
    chip.on_key_down(KeyMask::KeyF.mask());
    assert_eq!(chip.keypad(), 0x8004);
    assert_eq!(chip.old_keypad(), 0x0004);
    chip.on_key_down(KeyMask::Key2.mask());
    assert_eq!(chip.keypad(), 0x8004);
    assert_eq!(chip.old_keypad(), 0x8004);
    chip.on_key_up(KeyMask::Key2.mask());
    assert_eq!(chip.keypad(), 0x8000);
    assert_eq!(chip.old_keypad(), 0x8004);
    chip.on_key_up(KeyMask::Key5.mask());
    assert_eq!(chip.keypad(), 0x8000);
    chip.on_key_up(0xFFFF);
    assert_eq!(chip.keypad(), 0x0000);
}

#[test]
fn every_cycle_latches_the_key_mask() {
    let mut chip = machine_with(&[0x00, 0x00, 0x00, 0x00]);
    chip.on_key_down(0x0008);
    assert_eq!(chip.old_keypad(), 0x0000);
    run(&mut chip, 1);
    assert_eq!(chip.keypad(), 0x0008);
    assert_eq!(chip.old_keypad(), 0x0008);
}

#[test]
fn skip_if_key_pressed() {
    let mut chip = machine_with(&[0x60, 0x0B, 0xE0, 0x9E]);
    chip.on_key_down(KeyMask::KeyB.mask());
    run(&mut chip, 2);
    assert_eq!(chip.pc(), 0x206);

    let mut chip = machine_with(&[0x60, 0x0B, 0xE0, 0x9E]);
    chip.on_key_down(KeyMask::KeyA.mask());
    run(&mut chip, 2);
    assert_eq!(chip.pc(), 0x204);
}

#[test]
fn skip_if_key_not_pressed() {
    let mut chip = machine_with(&[0x60, 0x0B, 0xE0, 0xA1]);
    chip.on_key_down(KeyMask::KeyB.mask());
    run(&mut chip, 2);
    assert_eq!(chip.pc(), 0x204);

    let mut chip = machine_with(&[0x60, 0x0B, 0xE0, 0xA1]);
    chip.on_key_down(KeyMask::KeyA.mask());
    run(&mut chip, 2);
    assert_eq!(chip.pc(), 0x206);
}

#[test]
fn a_register_value_above_fifteen_names_no_key() {
    let mut chip = machine_with(&[0x60, 0x10, 0xE0, 0x9E]);
    chip.set_keypad(0xFFFF);
    run(&mut chip, 2);
    assert_eq!(chip.pc(), 0x204);

    let mut chip = machine_with(&[0x60, 0xFF, 0xE0, 0xA1]);
    chip.set_keypad(0xFFFF);
    run(&mut chip, 2);
    assert_eq!(chip.pc(), 0x206);
}

#[test]
fn key_wait_holds_the_program_counter_while_no_key_comes() {
    let mut chip = machine_with(&[0x65, 0x77, 0xF5, 0x0A]);
    run(&mut chip, 1);
    for _ in 0..20 {
        assert_eq!(chip.tick(), Outcome::Executed);
        assert_eq!(chip.pc(), 0x202);
        assert_eq!(chip.registers()[5], 0x77);
    }
}

#[test]
fn key_wait_takes_the_lowest_key_once_one_arrives() {
    let mut chip = machine_with(&[0xF5, 0x0A, 0x61, 0x01]);
    run(&mut chip, 3);
    assert_eq!(chip.pc(), 0x200);
    chip.on_key_down(KeyMask::Key7.mask() | KeyMask::Key3.mask() | KeyMask::KeyE.mask());
    run(&mut chip, 1);
    assert_eq!(chip.pc(), 0x202);
    assert_eq!(chip.registers()[5], 3);
    run(&mut chip, 1);
    assert_eq!(chip.pc(), 0x204);
    assert_eq!(chip.registers()[1], 1);
}

#[test]
fn key_wait_takes_key_zero_and_key_fifteen() {
    let mut chip = machine_with(&[0x6A, 0x09, 0xFA, 0x0A]);
    run(&mut chip, 1);
    chip.on_key_down(KeyMask::Key0.mask());
    run(&mut chip, 1);
    assert_eq!(chip.registers()[0xA], 0);
    assert_eq!(chip.pc(), 0x204);

    let mut chip = machine_with(&[0xFA, 0x0A]);
    chip.on_key_down(KeyMask::KeyF.mask());
    run(&mut chip, 1);
    assert_eq!(chip.registers()[0xA], 15);
    assert_eq!(chip.pc(), 0x202);
}

#[test]
fn key_wait_ignores_a_key_that_was_held_all_along() {
    let mut chip = machine_with(&[0x00, 0x00, 0xF5, 0x0A]);
    chip.on_key_down(KeyMask::Key4.mask());
    run(&mut chip, 1);
    for _ in 0..5 {
        run(&mut chip, 1);
        assert_eq!(chip.pc(), 0x202);
    }
    chip.on_key_down(KeyMask::Key9.mask());
    run(&mut chip, 1);
    assert_eq!(chip.pc(), 0x204);
    assert_eq!(chip.registers()[5], 4);
}

#[test]
fn key_wait_ignores_the_release_of_the_last_key() {
    let mut chip = machine_with(&[0x00, 0x00, 0x65, 0x77, 0xF5, 0x0A]);
    chip.on_key_down(KeyMask::Key4.mask());
    run(&mut chip, 2);
    chip.on_key_up(KeyMask::Key4.mask());
    assert_eq!(chip.keypad(), 0);
    assert_eq!(chip.old_keypad(), 0x0010);
    run(&mut chip, 1);
    assert_eq!(chip.pc(), 0x204);
    assert_eq!(chip.registers()[5], 0x77);
    assert_eq!(chip.old_keypad(), 0);
}

#[test]
fn key_wait_ends_when_one_of_two_keys_is_released() {
    let mut chip = machine_with(&[0x00, 0x00, 0xF5, 0x0A]);
    chip.set_keypad(0x0140);
    run(&mut chip, 2);
    assert_eq!(chip.pc(), 0x202);
    chip.on_key_up(KeyMask::Key6.mask());
    run(&mut chip, 1);
    assert_eq!(chip.pc(), 0x204);
    assert_eq!(chip.registers()[5], 8);
}
