use chip8::args::Args;

fn parse(args: &[&str]) -> Args {
    Args::new(args.iter().map(|arg| arg.to_string()).collect())
}

#[test]
fn a_typical_command_line() {
    let args = parse(&["chip8", "pong.ch8", "--clock=700", "--volume", "0.5", "--mute"]);
    assert_eq!(args.binary(), "chip8");
    assert_eq!(args.positional(0), Some(&"pong.ch8".to_string()));
    assert_eq!(args.positional(1), None);
    assert_eq!(args.option("clock"), Some("700".to_string()));
    assert_eq!(args.option("volume"), Some("0.5".to_string()));
    assert_eq!(args.option("mute"), None);
    assert!(args.has_option("clock"));
    assert!(args.has_option("volume"));
    assert!(args.has_option("mute"));
    assert!(!args.has_option("background"));
    assert_eq!(args.option("background"), None);
}

#[test]
fn no_arguments_at_all() {
    let args = parse(&[]);
    assert_eq!(args.binary(), "");
    assert_eq!(args.positional(0), None);
    assert!(!args.has_option(""));
}

#[test]
fn the_first_argument_that_is_not_empty_is_the_name() {
    let args = parse(&["", "", "--x", "y"]);
    assert_eq!(args.binary(), "--x");
    assert_eq!(args.positional(0), Some(&"y".to_string()));
    assert!(!args.has_option("x"));
}

#[test]
fn positional_arguments_keep_their_order() {
    let args = parse(&["p", "one", "--k=v", "two", "-three", "", "four"]);
    assert_eq!(args.positional(0), Some(&"one".to_string()));
    assert_eq!(args.positional(1), Some(&"two".to_string()));
    assert_eq!(args.positional(2), Some(&"-three".to_string()));
    assert_eq!(args.positional(3), Some(&"".to_string()));
    assert_eq!(args.positional(4), Some(&"four".to_string()));
    assert_eq!(args.positional(5), None);
    assert_eq!(args.positional(usize::MAX), None);
}

#[test]
fn the_argument_after_a_bare_option_is_its_value() {
    let args = parse(&["p", "--a", "--b", "c"]);
    assert_eq!(args.option("a"), Some("--b".to_string()));
    assert!(!args.has_option("b"));
    assert_eq!(args.positional(0), Some(&"c".to_string()));
}

#[test]
fn a_bare_option_at_the_end_has_no_value() {
    let args = parse(&["p", "x", "--last"]);
    assert!(args.has_option("last"));
    assert_eq!(args.option("last"), None);
}

#[test]
fn an_option_is_split_at_its_first_equals_sign() {
    let args = parse(&["p", "--k=v=w", "--empty=", "--=value"]);
    assert_eq!(args.option("k"), Some("v=w".to_string()));
    assert_eq!(args.option("empty"), Some("".to_string()));
    assert!(args.has_option("empty"));
    assert_eq!(args.option(""), Some("value".to_string()));
}

#[test]
fn leading_dashes_are_removed_in_pairs() {
    let args = parse(&["p", "----deep=1", "---odd=2", "--", "rest"]);
    assert_eq!(args.option("deep"), Some("1".to_string()));
    assert_eq!(args.option("-odd"), Some("2".to_string()));
    assert!(!args.has_option("odd"));
    assert_eq!(args.option(""), Some("rest".to_string()));
    assert_eq!(args.positional(0), None);
}

#[test]
fn a_later_option_replaces_an_earlier_one() {
    let args = parse(&["p", "--a=1", "--a=2"]);
    assert_eq!(args.option("a"), Some("2".to_string()));

    let args = parse(&["p", "--a=1", "--a"]);
    assert!(args.has_option("a"));
    assert_eq!(args.option("a"), None);

    let args = parse(&["p", "--a", "1", "--b=x", "--a", "3"]);
    assert_eq!(args.option("a"), Some("3".to_string()));
    assert_eq!(args.option("b"), Some("x".to_string()));
}

#[test]
fn option_names_are_compared_exactly() {
    let args = parse(&["p", "--Clock=1", "--clock =2", "--größe=3"]);
    assert!(!args.has_option("clock"));
    assert_eq!(args.option("Clock"), Some("1".to_string()));
    assert_eq!(args.option("clock "), Some("2".to_string()));
    assert_eq!(args.option("größe"), Some("3".to_string()));
}

#[test]
fn text_beyond_ascii_is_kept() {
    let args = parse(&["p", "--titel=grün=schön", "naïve"]);
    assert_eq!(args.option("titel"), Some("grün=schön".to_string()));
    assert_eq!(args.positional(0), Some(&"naïve".to_string()));
}
