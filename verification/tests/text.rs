//! The operations on text.

use rusty_chat::command::{parse, Command};
use rusty_chat::text::{after, is_white, join, number, same, starts_with, trim};

#[test]
fn white_space_is_the_unicode_property() {
    for n in 0..=0x10ffffu32 {
        if let Some(c) = char::from_u32(n) {
            assert_eq!(is_white(c), c.is_whitespace(), "{:x}", n);
        }
    }
}

#[test]
fn trim_cuts_white_space_at_both_ends() {
    for s in [
        "",
        " ",
        "\r\n",
        "a",
        "  a b  ",
        "\u{3000}d\u{e9}j\u{e0} vu\u{2003}\n",
        "\u{200b}kept\u{200b}",
    ] {
        assert_eq!(trim(s), s.trim());
        assert_eq!(trim(trim(s)), trim(s));
    }
    assert_eq!(trim(" \t John Doe \r\n"), "John Doe");
}

#[test]
fn prefixes_are_compared_by_characters() {
    assert!(starts_with("/quit now", "/quit"));
    assert!(starts_with("/quit", "/quit"));
    assert!(starts_with("abc", ""));
    assert!(!starts_with("/qui", "/quit"));
    assert!(!starts_with("", "/quit"));
    assert!(starts_with("\u{e9}t\u{e9}", "\u{e9}t"));
    assert_eq!(after("\u{e9}t\u{e9} 1", 3), " 1");
    assert_eq!(after("abc", 3), "");
    assert!(same("\u{e9}", "\u{e9}"));
    assert!(!same("a", "A"));
}

#[test]
fn lists_are_joined() {
    let names = |v: &[&str]| -> Vec<String> { v.iter().map(|s| s.to_string()).collect() };
    assert_eq!(join(&names(&[]), ", "), "");
    assert_eq!(join(&names(&["a"]), ", "), "a");
    assert_eq!(join(&names(&["a", "", "b c"]), ", "), "a, , b c");
}

#[test]
fn numbers_are_decimal() {
    for n in [0, 7, 10, 99, 100, 1203, u64::MAX] {
        assert_eq!(number(n), n.to_string());
    }
}

#[test]
fn lines_are_read_as_commands() {
    assert!(matches!(parse(" \r\n"), Command::Nothing));
    assert!(matches!(parse("/quit\n"), Command::Quit));
    assert!(matches!(parse("/quitting time"), Command::Quit));
    assert!(matches!(parse("/join  #rust \n"), Command::Join(r) if r == "#rust"));
    assert!(matches!(parse("/join#rust"), Command::Join(r) if r == "#rust"));
    assert!(matches!(parse("/join"), Command::Join(r) if r.is_empty()));
    assert!(matches!(parse("/leave please"), Command::Leave));
    assert!(matches!(parse("/list"), Command::ListUsers));
    assert!(matches!(parse("/list users"), Command::ListUsers));
    assert!(matches!(parse("/list rooms"), Command::ListRooms));
    assert!(matches!(parse("/list cats"), Command::ListUnknown));
    assert!(matches!(parse("/msg  Bob  Hi "), Command::Tell(t) if t == "Bob  Hi"));
    assert!(matches!(parse("/nick New Name\n"), Command::Nick(n) if n == "New Name"));
    assert!(matches!(parse("/help me"), Command::Help));
    assert!(matches!(parse("  hello /quit\n"), Command::Say(t) if t == "hello /quit"));
    assert!(matches!(parse("/unknown\n"), Command::Say(t) if t == "/unknown"));
    assert!(matches!(parse("/Quit"), Command::Say(t) if t == "/Quit"));
}
