use pcpocket::errors::{DuplicateNameError, ParserError};
use pcpocket::text::chars_of;
use pcpocket::text::{decimal_text, trim};

#[test]
fn trim_removes_white_space_at_both_ends() {
    assert_eq!(trim("  a b  "), "a b");
    assert_eq!(trim("\t\n x"), "x");
    assert_eq!(trim("x \r\n"), "x");
    assert_eq!(trim("x"), "x");
    assert_eq!(trim(""), "");
    assert_eq!(trim(" \t "), "");
    assert_eq!(trim("\u{2028}\u{e9}t\u{e9}\u{85}"), "\u{e9}t\u{e9}");
}

#[test]
fn trim_agrees_with_the_standard_library() {
    let samples = [" a", "a ", " a ", "\u{feff}a", "\u{200b}a\u{200b}", "\u{1680}x\u{205f}", "a\u{0}"];
    for sample in samples {
        assert_eq!(trim(sample), sample.trim());
    }
}

#[test]
fn decimal_text_renders_numbers() {
    assert_eq!(decimal_text(0), "0");
    assert_eq!(decimal_text(7), "7");
    assert_eq!(decimal_text(10), "10");
    assert_eq!(decimal_text(120), "120");
    assert_eq!(decimal_text(9_876_543_210), "9876543210");
    assert_eq!(decimal_text(usize::MAX), usize::MAX.to_string());
}

#[test]
fn parser_error_messages_name_kind_and_cause() {
    let cause = || String::from("x");
    assert_eq!(ParserError::FileReadError(cause()).message(), "File read error: x");
    assert_eq!(ParserError::InvalidFormat(cause()).message(), "Invalid format: x");
    assert_eq!(ParserError::MissingField(cause()).message(), "Missing required field: x");
    assert_eq!(ParserError::ConfigError(cause()).message(), "Configuration error: x");
    assert_eq!(ParserError::PythonError(cause()).message(), "Python error: x");
    assert_eq!(ParserError::LuaError(cause()).message(), "Lua error: x");
    assert_eq!(ParserError::IoError(cause()).message(), "IO error: x");
}

#[test]
fn parser_error_from_text_is_a_config_error() {
    assert!(matches!(ParserError::from(String::from("bad")), ParserError::ConfigError(c) if c == "bad"));
    assert!(matches!(ParserError::from("worse"), ParserError::ConfigError(c) if c == "worse"));
}

#[test]
fn parser_error_from_io_error_keeps_its_text() {
    let source = std::io::Error::new(std::io::ErrorKind::Other, "disk on fire");
    match ParserError::from(source) {
        ParserError::IoError(cause) => assert_eq!(cause, "disk on fire"),
        other => panic!("unexpected {:?}", other),
    }
}

#[test]
fn duplicate_name_error_names_the_parser() {
    let error = DuplicateNameError { name: String::from("Mine") };
    assert_eq!(error.message(), "Parser with name 'Mine' already exists");
}

#[test]
fn chars_of_lists_the_characters() {
    assert_eq!(chars_of("a\u{e9}\u{1f600}"), vec!['a', '\u{e9}', '\u{1f600}']);
    assert!(chars_of("").is_empty());
}
