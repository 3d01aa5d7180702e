use tranquil::locale::{InvalidLocale, Locale};
use tranquil::text::{find_char, is_whitespace, slice_chars, starts_with, trim, trim_start};

fn chars_of(s: &str) -> Vec<char> {
    s.chars().collect()
}

fn string_of(chars: &[char]) -> String {
    chars.iter().collect()
}

#[test]
fn trim_drops_white_space_at_both_ends() {
    let chars = chars_of(" \t a b \u{3000}\n");
    assert_eq!(string_of(&trim(&chars)), "a b");
    assert_eq!(string_of(&trim_start(&chars)), "a b \u{3000}\n");
    assert_eq!(string_of(&trim(&chars_of("   "))), "");
}

#[test]
fn white_space_is_the_unicode_property() {
    assert!(is_whitespace(' '));
    assert!(is_whitespace('\u{85}'));
    assert!(is_whitespace('\u{2009}'));
    assert!(!is_whitespace('x'));
    assert!(!is_whitespace('\u{200B}'));
}

#[test]
fn prefixes_and_characters() {
    assert!(starts_with("foobar", "foo"));
    assert!(starts_with("foo", ""));
    assert!(!starts_with("fo", "foo"));
    assert!(!starts_with("bar", "baz"));
    let chars = chars_of("a b c");
    assert_eq!(find_char(&chars, ' '), Some(1));
    assert_eq!(find_char(&chars, 'z'), None);
    assert_eq!(string_of(&slice_chars(&chars, 2, 5)), "b c");
}

#[test]
fn locale_codes_and_back() {
    assert_eq!(Locale::EnglishUS.code(), "en-US");
    assert_eq!(Locale::PortugueseBrazilian.code(), "pt-BR");
    assert_eq!(Locale::from_code("de"), Ok(Locale::German));
    assert_eq!(Locale::from_code("xx"), Err(InvalidLocale));
    assert_eq!(Locale::from_code("en-us"), Err(InvalidLocale));
    assert_eq!(Locale::default_locale(), Locale::EnglishUS);
}

#[test]
fn every_locale_code_parses_back_to_its_locale() {
    let all = Locale::all();
    assert_eq!(all.len(), 30);
    for locale in all {
        assert_eq!(Locale::from_code(locale.code()), Ok(locale));
    }
}
