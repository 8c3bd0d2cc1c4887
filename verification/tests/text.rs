use dir2prompt::text::{
    decimal_string, has_final_newline, is_white_space, joined, lowercase_is, starts_with_char,
    to_lower_char, trim, without_first_char,
};

#[test]
fn trim_drops_whitespace_at_both_ends() {
    assert_eq!(trim("  a b \t\n"), "a b");
    assert_eq!(trim("abc"), "abc");
    assert_eq!(trim("\u{a0}x y\u{3000}"), "x y");
    assert_eq!(trim(" \u{e9}t\u{e9} "), "\u{e9}t\u{e9}");
}

#[test]
fn trim_of_blank_is_empty() {
    assert_eq!(trim(""), "");
    assert_eq!(trim("   "), "");
    assert_eq!(trim("\n"), "");
}

#[test]
fn first_character_tests() {
    assert!(starts_with_char("!x", '!'));
    assert!(!starts_with_char("x!", '!'));
    assert!(!starts_with_char("", '!'));
    assert_eq!(without_first_char("!ab"), "ab");
    assert_eq!(without_first_char("\u{e9}b"), "b");
    assert_eq!(without_first_char("x"), "");
}

#[test]
fn joined_concatenates() {
    assert_eq!(joined("!", "*.log"), "!*.log");
    assert_eq!(joined("", ""), "");
}

#[test]
fn lower_case_of_characters() {
    assert_eq!(to_lower_char('A'), 'a');
    assert_eq!(to_lower_char('Z'), 'z');
    assert_eq!(to_lower_char('m'), 'm');
    assert_eq!(to_lower_char('@'), '@');
    assert_eq!(to_lower_char('['), '[');
    assert_eq!(to_lower_char('\u{c9}'), '\u{c9}');
}

#[test]
fn lowercase_comparison() {
    assert!(lowercase_is("RS", "rs"));
    assert!(lowercase_is("Rs", "rs"));
    assert!(lowercase_is("rs", "rs"));
    assert!(lowercase_is("", ""));
    assert!(!lowercase_is("rs", "RS"));
    assert!(!lowercase_is("rs", "r"));
    assert!(!lowercase_is("r", "rs"));
    assert!(!lowercase_is("\u{c9}", "\u{e9}"));
    assert!(lowercase_is("\u{e9}", "\u{e9}"));
}

#[test]
fn decimal_digits() {
    assert_eq!(decimal_string(0), "0");
    assert_eq!(decimal_string(7), "7");
    assert_eq!(decimal_string(10), "10");
    assert_eq!(decimal_string(200_000), "200000");
    assert_eq!(decimal_string(1_234_567_890), "1234567890");
    assert_eq!(decimal_string(usize::MAX), format!("{}", usize::MAX));
}

#[test]
fn final_newline_test() {
    assert!(has_final_newline("a\n"));
    assert!(has_final_newline("\n"));
    assert!(!has_final_newline(""));
    assert!(!has_final_newline("a\nb"));
    assert!(!has_final_newline("a\r"));
}

#[test]
fn white_space_is_what_the_standard_library_trims() {
    let listed = |c: char| {
        matches!(
            c,
            '\u{9}'..='\u{d}'
                | ' '
                | '\u{85}'
                | '\u{a0}'
                | '\u{1680}'
                | '\u{2000}'..='\u{200a}'
                | '\u{2028}'
                | '\u{2029}'
                | '\u{202f}'
                | '\u{205f}'
                | '\u{3000}'
        )
    };
    let mut count = 0;
    for code in 0..=0x10ffffu32 {
        if let Some(c) = char::from_u32(code) {
            assert_eq!(is_white_space(c), listed(c), "U+{:04X}", code);
            assert_eq!(is_white_space(c), c.is_whitespace(), "U+{:04X}", code);
            let padded = format!("{}x{}", c, c);
            assert_eq!(trim(&padded), padded.trim(), "U+{:04X}", code);
            if listed(c) {
                count += 1;
            }
        }
    }
    assert_eq!(count, 25);
}
