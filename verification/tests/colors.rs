use chip8::color::{to_color, Rgb};

#[test]
fn black_and_white() {
    assert_eq!(to_color("#000000"), Some(Rgb { r: 0, g: 0, b: 0 }));
    assert_eq!(to_color("#FFFFFF"), Some(Rgb { r: 255, g: 255, b: 255 }));
}

#[test]
fn each_pair_is_one_part() {
    assert_eq!(to_color("#1e90ff"), Some(Rgb { r: 30, g: 144, b: 255 }));
    assert_eq!(to_color("#0a0B0c"), Some(Rgb { r: 10, g: 11, b: 12 }));
    assert_eq!(to_color("#AbCdEf"), Some(Rgb { r: 0xAB, g: 0xCD, b: 0xEF }));
}

#[test]
fn the_hash_is_optional_and_may_repeat() {
    assert_eq!(to_color("102030"), Some(Rgb { r: 0x10, g: 0x20, b: 0x30 }));
    assert_eq!(to_color("###102030"), Some(Rgb { r: 0x10, g: 0x20, b: 0x30 }));
}

#[test]
fn what_follows_the_three_pairs_is_not_read() {
    assert_eq!(to_color("#102030ff"), Some(Rgb { r: 0x10, g: 0x20, b: 0x30 }));
    assert_eq!(to_color("#102030 grün"), Some(Rgb { r: 0x10, g: 0x20, b: 0x30 }));
    assert_eq!(to_color("#102030#"), Some(Rgb { r: 0x10, g: 0x20, b: 0x30 }));
}

#[test]
fn a_pair_may_be_a_plus_sign_and_one_digit() {
    assert_eq!(to_color("#+f+0+A"), Some(Rgb { r: 15, g: 0, b: 10 }));
    assert_eq!(to_color("#f+0000"), None);
    assert_eq!(to_color("#++0000"), None);
    assert_eq!(to_color("#-10000"), None);
}

#[test]
fn short_texts_name_no_colour() {
    assert_eq!(to_color(""), None);
    assert_eq!(to_color("#"), None);
    assert_eq!(to_color("#12345"), None);
    assert_eq!(to_color("######"), None);
}

#[test]
fn other_characters_name_no_colour() {
    assert_eq!(to_color("#gg0000"), None);
    assert_eq!(to_color("#00 000"), None);
    assert_eq!(to_color("#0000_0"), None);
    assert_eq!(to_color("#0x1020"), None);
    assert_eq!(to_color("12#456"), None);
    assert_eq!(to_color("#00é000"), None);
    assert_eq!(to_color("#0000€0"), None);
    assert_eq!(to_color("#ffff١١"), None);
    assert_eq!(to_color(" #000000"), None);
    assert_eq!(to_color("#00000:"), None);
    assert_eq!(to_color("#00000/"), None);
    assert_eq!(to_color("#00000@"), None);
    assert_eq!(to_color("#00000G"), None);
    assert_eq!(to_color("#00000`"), None);
}
