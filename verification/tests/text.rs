use mcp_cache_ci::text::{decimal_text, lowers_to, strip_suffix, to_lower_char, trim_end_char};

#[test]
fn end_is_trimmed() {
    assert_eq!(trim_end_char("a//b//", '/'), "a//b");
    assert_eq!(trim_end_char("//", '/'), "");
    assert_eq!(trim_end_char("я//", '/'), "я");
    assert_eq!(trim_end_char("", '/'), "");
}

#[test]
fn suffix_is_stripped() {
    assert_eq!(strip_suffix("яab", "ab"), Some("я"));
    assert_eq!(strip_suffix("ab", "ab"), Some(""));
    assert_eq!(strip_suffix("b", "ab"), None);
    assert_eq!(strip_suffix("xb", "ab"), None);
    assert_eq!(strip_suffix("ab", ""), Some("ab"));
}

#[test]
fn ascii_letters_are_lowered() {
    assert_eq!(to_lower_char('A'), 'a');
    assert_eq!(to_lower_char('Z'), 'z');
    assert_eq!(to_lower_char('@'), '@');
    assert_eq!(to_lower_char('['), '[');
    assert_eq!(to_lower_char('Я'), 'Я');
    assert!(lowers_to("Keep-ALIVE", "keep-alive"));
    assert!(!lowers_to("keep-alive", "Keep-Alive"));
    assert!(!lowers_to("keep", "keep-alive"));
    assert!(!lowers_to("Я", "я"));
}

#[test]
fn numbers_are_written_in_decimal() {
    for n in 0..=u16::MAX {
        assert_eq!(decimal_text(n), n.to_string());
    }
}
