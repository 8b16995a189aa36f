use lib::parser::code_block::{code_block_indent, find_indent, is_indent, strip_code_block};
use lib::parser::escapes::{decode_escaped_string, decode_unicode4, DecodeError};
use lib::text::split_lines;

#[test]
fn test_find_indent() {
    assert_eq!(Some(4), find_indent("   \thello"));
    assert_eq!(Some(0), find_indent("nope"));
    assert_eq!(None, find_indent(""));
    assert_eq!(None, find_indent("    "));
}

#[test]
fn test_strip_code_block() {
    let result = strip_code_block("\n   hello\n  world\n\n\n again\n\n\n");
    assert_eq!(vec!["  hello", " world", "", "", "again"], result);
}

#[test]
fn strip_code_block_all_blank_keeps_lines() {
    let result = strip_code_block("  \n\t\n");
    assert_eq!(vec!["  ", "\t"], result);
}

#[test]
fn strip_code_block_short_blank_line_kept() {
    // the blank middle line is shorter than the shared indentation
    let result = strip_code_block("    a\n  \n    b");
    assert_eq!(vec!["a", "  ", "b"], result);
}

#[test]
fn code_block_indent_layout() {
    assert_eq!(Some((1, 1, 5)), code_block_indent("\n   hello\n  world\n\n\n again\n\n\n"));
    assert_eq!(None, code_block_indent(" \n\t\n"));
    assert_eq!(None, code_block_indent(""));
}

#[test]
fn is_indent_chars() {
    assert!(is_indent(' '));
    assert!(is_indent('\t'));
    assert!(!is_indent('\n'));
    assert!(!is_indent('a'));
}

#[test]
fn split_lines_like_str_lines() {
    for input in ["", "\n", "a", "a\n", "a\r\nb", "a\rb\n", "\n\nx", "x\r"] {
        let expected: Vec<String> = input.lines().map(|l| l.to_owned()).collect();
        assert_eq!(expected, split_lines(input), "input {:?}", input);
    }
}

#[test]
fn decode_escapes() {
    assert_eq!(Ok("foo\nbar".to_owned()), decode_escaped_string("\"foo\\nbar\""));
    assert_eq!(Ok("a\tb\rc".to_owned()), decode_escaped_string("\"a\\tb\\rc\""));
    assert_eq!(Ok("A\u{e9}".to_owned()), decode_escaped_string("\"\\u0041\\u00E9\""));
    assert_eq!(Ok("".to_owned()), decode_escaped_string("\"\""));
    assert_eq!(Ok("".to_owned()), decode_escaped_string(""));
}

#[test]
fn decode_escape_errors() {
    assert_eq!(Err(DecodeError::InvalidEscape), decode_escaped_string("\"a\\qb\""));
    // the closing quote is read as the third digit
    assert_eq!(Err(DecodeError::InvalidHexDigit), decode_escaped_string("\"\\u00\""));
    assert_eq!(Err(DecodeError::ExpectedHexCharacter), decode_escaped_string("\"\\u00"));
    assert_eq!(Err(DecodeError::InvalidHexDigit), decode_escaped_string("\"\\u00g0\""));
    assert_eq!(Err(DecodeError::ExpectedValidCharacter), decode_escaped_string("\"\\ud800\""));
}

#[test]
fn decode_unicode4_reads_four_digits() {
    assert_eq!(Ok('A'), decode_unicode4("x0041", 1));
    assert_eq!(Ok('\u{ffff}'), decode_unicode4("FFFF", 0));
    assert_eq!(Err(DecodeError::ExpectedHexCharacter), decode_unicode4("004", 0));
}
