use tranquil::doc_comment::{
    check_description, check_name, extract_inline_code, is_valid_command_char, lowercase_is_same, parse,
    parse_locale, strip_dash, DocError, DocField, NameDescription,
};

fn chars_of(s: &str) -> Vec<char> {
    s.chars().collect()
}

fn lines(ls: &[&str]) -> Vec<Option<String>> {
    ls.iter().map(|l| Some(l.to_string())).collect()
}

fn parsed(ls: &[&str], ident: &str) -> Result<NameDescription, DocError> {
    parse(&lines(ls), ident, None)
}

fn pairs<'a>(v: &'a [(&'static str, String)]) -> Vec<(&'static str, &'a str)> {
    v.iter().map(|(k, t)| (*k, t.as_str())).collect()
}

#[test]
fn dashes_are_stripped_with_following_space() {
    assert_eq!(strip_dash("- foo"), (true, "foo".to_string()));
    assert_eq!(strip_dash("-\tfoo bar"), (true, "foo bar".to_string()));
    assert_eq!(strip_dash("foo"), (false, "foo".to_string()));
    assert_eq!(strip_dash("-"), (true, String::new()));
    assert_eq!(strip_dash(" - foo"), (false, " - foo".to_string()));
}

#[test]
fn inline_code_is_split_off_the_start() {
    let (code, rest) = extract_inline_code(&chars_of("`foo`   bar baz"), 0).unwrap();
    assert_eq!(code, Some(chars_of("foo")));
    assert_eq!(rest, chars_of("bar baz"));
    let (code, rest) = extract_inline_code(&chars_of(" `foo` bar"), 0).unwrap();
    assert_eq!(code, None);
    assert_eq!(rest, chars_of(" `foo` bar"));
    let (code, rest) = extract_inline_code(&chars_of("``"), 0).unwrap();
    assert_eq!(code, Some(Vec::<char>::new()));
    assert_eq!(rest, Vec::<char>::new());
    assert!(matches!(
        extract_inline_code(&chars_of("`foo bar"), 4),
        Err(DocError::UnclosedBacktick { line: 4 })
    ));
}

#[test]
fn command_name_characters() {
    assert!(lowercase_is_same('a'));
    assert!(lowercase_is_same('1'));
    assert!(!lowercase_is_same('A'));
    assert!(!lowercase_is_same('\u{130}'));
    assert!(is_valid_command_char('-'));
    assert!(is_valid_command_char('_'));
    assert!(is_valid_command_char('\''));
    assert!(is_valid_command_char('a'));
    assert!(is_valid_command_char('7'));
    assert!(is_valid_command_char('ß'));
    assert!(is_valid_command_char('\u{94D}'));
    assert!(!is_valid_command_char('A'));
    assert!(!is_valid_command_char(' '));
    assert!(!is_valid_command_char('!'));
    assert!(!is_valid_command_char('\u{301}'));
}

#[test]
fn names_are_checked() {
    assert!(check_name(&chars_of("ping-pong"), 0).is_ok());
    assert!(matches!(
        check_name(&chars_of(""), 2),
        Err(DocError::Empty { field: DocField::Name, line: 2 })
    ));
    let long = "a".repeat(33);
    assert!(matches!(
        check_name(&chars_of(&long), 0),
        Err(DocError::TooLong { field: DocField::Name, max_len: 32, len: 33, line: 0 })
    ));
    assert!(check_name(&chars_of(&"a".repeat(32)), 0).is_ok());
    match check_name(&chars_of("Pi!ng P!"), 1) {
        Err(DocError::InvalidChars { chars, line: 1 }) => assert_eq!(chars, vec![' ', '!', 'P']),
        other => panic!("unexpected {other:?}"),
    }
}

#[test]
fn descriptions_are_checked() {
    assert!(check_description(&chars_of("fine"), 0).is_ok());
    let long = "x".repeat(101);
    assert!(matches!(
        check_description(&chars_of(&long), 5),
        Err(DocError::TooLong { field: DocField::Description, max_len: 100, len: 101, line: 5 })
    ));
    assert!(check_description(&chars_of(&"é".repeat(100)), 0).is_ok());
}

#[test]
fn locales_are_known_codes() {
    assert_eq!(parse_locale("bg", 0).unwrap(), 0);
    assert_eq!(parse_locale("es-419", 0).unwrap(), 7);
    assert_eq!(parse_locale("zh-TW", 0).unwrap(), 31);
    assert!(parse_locale("id", 0).is_ok());
    assert!(matches!(
        parse_locale("en", 3),
        Err(DocError::InvalidLocale { locale, line: 3 }) if locale == "en"
    ));
}

#[test]
fn full_doc_comment_is_read() {
    let nd = parsed(
        &[
            " `ping` Checks the latency",
            " of the bot",
            "",
            " - `fr` Vérifie la latence",
            " - `de` `pingen` Prüft die",
            "   Latenz",
        ],
        "Ping",
    )
    .unwrap();
    assert_eq!(nd.name.default, "ping");
    assert_eq!(pairs(&nd.name.localizations), vec![("de", "pingen")]);
    assert_eq!(nd.description.default, "Checks the latency of the bot");
    assert_eq!(
        pairs(&nd.description.localizations),
        vec![("de", "Prüft die Latenz"), ("fr", "Vérifie la latence")]
    );
}

#[test]
fn missing_doc_comment_gives_defaults() {
    let nd = parsed(&[], "MyCommand").unwrap();
    assert_eq!(nd.name.default, "my-command");
    assert_eq!(nd.description.default, "n/a");
    assert!(nd.name.localizations.is_empty());
    assert!(nd.description.localizations.is_empty());
}

#[test]
fn missing_name_gives_kebab_case_identifier() {
    let nd = parsed(&["Does things"], "DoThings").unwrap();
    assert_eq!(nd.name.default, "do-things");
    assert_eq!(nd.description.default, "Does things");
}

#[test]
fn group_prefix_is_stripped_from_default_name() {
    let nd = parse(&vec![], "AdminBanUser", Some("Admin")).unwrap();
    assert_eq!(nd.name.default, "ban-user");
}

#[test]
fn doc_comment_errors_name_their_line() {
    assert!(matches!(parsed(&["`ping desc"], "P"), Err(DocError::UnclosedBacktick { line: 0 })));
    assert!(matches!(
        parsed(&["`ping`"], "P"),
        Err(DocError::Empty { field: DocField::Description, line: 0 })
    ));
    assert!(matches!(
        parsed(&["`ping` d", "", "- `xx` foo"], "P"),
        Err(DocError::InvalidLocale { line: 2, .. })
    ));
    assert!(matches!(
        parsed(&["`ping` d", "", "- `de` a", "- `de` b"], "P"),
        Err(DocError::DuplicateLocale { locale, line: 3 }) if locale == "de"
    ));
    assert!(matches!(
        parsed(&["`ping` d", "", "continuation"], "P"),
        Err(DocError::DashExpected { line: 2 })
    ));
    assert!(matches!(parsed(&["`ping` d", "", "- foo"], "P"), Err(DocError::LocaleExpected { line: 2 })));
    assert!(matches!(
        parsed(&["`ping` d", "", "- `de` `x b"], "P"),
        Err(DocError::UnclosedBacktick { line: 2 })
    ));
    assert!(matches!(parse(&vec![None], "P", None), Err(DocError::Malformed { line: 0 })));
    assert!(matches!(
        parse(&vec![Some("`p` d".to_string()), None], "P", None),
        Err(DocError::Malformed { line: 1 })
    ));
    assert!(matches!(
        parsed(&["`Ping!` d"], "P"),
        Err(DocError::InvalidChars { line: 0, .. })
    ));
}

#[test]
fn translated_descriptions_are_checked_in_code_order() {
    let long = format!("- `fr` {}", "x".repeat(101));
    let long_de = format!("- `de` {}", "y".repeat(102));
    let result = parsed(&["`ping` d", "", &long, &long_de], "P");
    assert!(matches!(
        result,
        Err(DocError::TooLong { field: DocField::Description, max_len: 100, len: 102, line: 3 })
    ));
    assert!(matches!(
        parsed(&["`ping` d", "", "- `de`"], "P"),
        Err(DocError::Empty { field: DocField::Description, line: 2 })
    ));
}

#[test]
fn doc_errors_have_their_messages() {
    let err = parsed(&["`cmd` Desc", "", "- `de` Eins", "- `de` Zwei"], "Cmd").err().unwrap();
    assert_eq!(err.message(), "duplicate locale: de");
    let err = parsed(&["`cmd` Desc", "", "- `en` English"], "Cmd").err().unwrap();
    assert_eq!(err.message(), "invalid locale: en; see https://discord.com/developers/docs/reference#locales");
    assert_eq!(DocError::Empty { field: DocField::Name, line: 0 }.message(), "name cannot be empty");
    assert_eq!(
        DocError::TooLong { field: DocField::Description, max_len: 100, len: 101, line: 0 }.message(),
        "description must be at most 100 characters (101 > 100)"
    );
    let err = parsed(&["`Pi!ng P!` d"], "P").err().unwrap();
    assert_eq!(err.message(), "characters \" !P\" cannot be used in command names");
    assert_eq!(
        DocError::InvalidChars { chars: vec!['"', '\n'], line: 0 }.message(),
        "characters \"\\\"\\n\" cannot be used in command names"
    );
    assert_eq!(DocError::Malformed { line: 0 }.message(), "malformed doc comment");
    assert_eq!(DocError::UnclosedBacktick { line: 0 }.message(), "unclosed backtick");
    assert_eq!(DocError::LocaleExpected { line: 0 }.message(), "locale expected");
    assert_eq!(
        DocError::DashExpected { line: 0 }.message(),
        "dash expected to start a new localization entry"
    );
}
