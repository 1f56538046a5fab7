use icarus::console::{parse, ConsoleCommand, WirelessCommands};

#[test]
fn wireless_get_parses() {
    assert_eq!(
        parse(b"wireless get"),
        Some(ConsoleCommand::Wireless(WirelessCommands::Get))
    );
}

#[test]
fn trailing_words_are_ignored() {
    assert_eq!(
        parse(b"wireless get now"),
        Some(ConsoleCommand::Wireless(WirelessCommands::Get))
    );
}

#[test]
fn other_subcommands_do_not_parse() {
    assert_eq!(parse(b"wireless set"), None);
    assert_eq!(parse(b"wireless"), None);
    assert_eq!(parse(b"motor get"), None);
    assert_eq!(parse(b""), None);
    assert_eq!(parse(b"get wireless"), None);
}

#[test]
fn double_space_breaks_the_word() {
    assert_eq!(parse(b"wireless  get"), None);
}

#[test]
fn prefix_words_do_not_match() {
    assert_eq!(parse(b"wirelessget"), None);
    assert_eq!(parse(b"wireless getx"), None);
}
