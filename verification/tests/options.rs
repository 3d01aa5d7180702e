use tranquil::option::{
    create, resolve, resolve_autocompleted, resolve_len_string, resolve_optional, resolve_required,
    unexpected_type, Autocompleted, DiscordError, Error, LenString, LengthBounds, OptionKind, OptionShape,
    OptionValue, Resolved, Unvalidated, ValueType,
};

fn discord(r: Result<impl std::fmt::Debug, Error>) -> DiscordError {
    match r {
        Err(Error::Discord(e)) => e,
        other => panic!("expected a Discord error, got {other:?}"),
    }
}

#[test]
fn values_know_their_kind() {
    assert_eq!(OptionValue::Integer(3).kind(), OptionKind::Integer);
    assert_eq!(OptionValue::Unknown(12).kind(), OptionKind::Unknown(12));
    assert_eq!(
        OptionValue::Autocomplete { kind: OptionKind::Number, value: "1.5".to_string() }.kind(),
        OptionKind::Number
    );
    assert_eq!(
        unexpected_type(OptionKind::Boolean, &OptionValue::String("x".to_string())),
        DiscordError::UnexpectedOptionType { expected: OptionKind::Boolean, got: OptionKind::String }
    );
}

#[test]
fn discord_errors_have_messages() {
    assert_eq!(
        DiscordError::MissingRequiredOption.message(),
        "command option should be required but is missing"
    );
    assert_eq!(
        DiscordError::UnexpectedOptionType { expected: OptionKind::Boolean, got: OptionKind::Unknown(7) }.message(),
        "command option should be Boolean, got Unknown(7)"
    );
    assert_eq!(
        DiscordError::StringLengthOutOfBounds { min: 1, max: 3, got: 4 }.message(),
        "command option should be between 1 and 3 characters, got 4"
    );
    assert_eq!(DiscordError::NotAutocompletable.message(), "command option should not be autocompletable");
}

#[test]
fn values_resolve_to_their_type() {
    let mut v = OptionValue::Boolean(true);
    assert_eq!(resolve_required(ValueType::Boolean, &mut v).unwrap(), Resolved::Boolean(true));
    let mut v = OptionValue::Integer(-4);
    assert_eq!(resolve_required(ValueType::Integer, &mut v).unwrap(), Resolved::Integer(-4));
    let mut v = OptionValue::Number(1.5f64.to_bits());
    assert_eq!(resolve_required(ValueType::Number, &mut v).unwrap(), Resolved::Number(1.5f64.to_bits()));
    let mut v = OptionValue::User(99);
    assert_eq!(resolve_required(ValueType::User, &mut v).unwrap(), Resolved::User(99));
    let mut v = OptionValue::Mentionable(5);
    match resolve_required(ValueType::Mentionable, &mut v).unwrap() {
        Resolved::Mentionable(m) => assert_eq!(m.get(), 5),
        other => panic!("unexpected {other:?}"),
    }
    let mut v = OptionValue::Integer(1);
    assert_eq!(
        discord(resolve_required(ValueType::Boolean, &mut v)),
        DiscordError::UnexpectedOptionType { expected: OptionKind::Boolean, got: OptionKind::Integer }
    );
    let mut v = OptionValue::Integer(1);
    assert_eq!(discord(resolve_required(ValueType::NotAutocompletable, &mut v)), DiscordError::NotAutocompletable);
}

#[test]
fn strings_are_taken_out_of_the_value() {
    let mut v = OptionValue::String("hello".to_string());
    assert_eq!(resolve_required(ValueType::String, &mut v).unwrap(), Resolved::String("hello".to_string()));
    assert!(matches!(&v, OptionValue::String(s) if s.is_empty()));
}

#[test]
fn missing_options_are_required_or_optional() {
    assert_eq!(discord(resolve(ValueType::Integer, None)), DiscordError::MissingRequiredOption);
    assert_eq!(resolve_optional(ValueType::Integer, None).unwrap(), None);
    let mut v = OptionValue::Channel(8);
    assert_eq!(resolve_optional(ValueType::Channel, Some(&mut v)).unwrap(), Some(Resolved::Channel(8)));
    let mut v = OptionValue::Role(9);
    assert_eq!(resolve(ValueType::Role, Some(&mut v)).unwrap(), Resolved::Role(9));
}

#[test]
fn bounded_strings_count_characters() {
    assert_eq!(LenString::<2, 4>::new("abc".to_string()).unwrap().into_inner(), "abc");
    assert!(LenString::<2, 4>::new("a".to_string()).is_none());
    assert!(LenString::<2, 4>::new("ééééé".to_string()).is_none());
    assert_eq!(LenString::<2, 4>::new("éééé".to_string()).unwrap().as_str(), "éééé");
    assert_eq!(LenString::<1, 3>::new("äöü".to_string()).unwrap().as_str(), "äöü");
    let mut v = OptionValue::String("abcd".to_string());
    assert_eq!(
        discord(resolve_len_string::<1, 3>(&mut v)),
        DiscordError::StringLengthOutOfBounds { min: 1, max: 3, got: 4 }
    );
    assert!(matches!(&v, OptionValue::String(s) if s.is_empty()));
    let mut v = OptionValue::String("ééééé".to_string());
    assert_eq!(
        discord(resolve_len_string::<1, 3>(&mut v)),
        DiscordError::StringLengthOutOfBounds { min: 1, max: 3, got: 5 }
    );
    let mut v = OptionValue::String("ab".to_string());
    assert_eq!(resolve_len_string::<1, 3>(&mut v).unwrap().into_inner(), "ab");
    assert!(matches!(&v, OptionValue::String(s) if s.is_empty()));
    let mut v = OptionValue::Integer(2);
    assert_eq!(
        discord(resolve_len_string::<1, 3>(&mut v)),
        DiscordError::UnexpectedOptionType { expected: OptionKind::String, got: OptionKind::Integer }
    );
    assert!(matches!(v, OptionValue::Integer(2)));
}

#[test]
fn autocompleted_options_report_focus() {
    assert!(matches!(resolve_autocompleted(Unvalidated::String, None), Ok(Autocompleted::Unfocused(None))));
    let mut v = OptionValue::Autocomplete { kind: OptionKind::String, value: "ab".to_string() };
    assert!(matches!(
        resolve_autocompleted(Unvalidated::String, Some(&mut v)),
        Ok(Autocompleted::Focused(s)) if s == "ab"
    ));
    let mut v = OptionValue::Autocomplete { kind: OptionKind::String, value: "ab".to_string() };
    assert_eq!(
        discord(resolve_autocompleted(Unvalidated::Integer, Some(&mut v))),
        DiscordError::UnexpectedOptionType { expected: OptionKind::Integer, got: OptionKind::String }
    );
    let mut v = OptionValue::Integer(5);
    assert!(matches!(
        resolve_autocompleted(Unvalidated::Integer, Some(&mut v)),
        Ok(Autocompleted::Unfocused(Some(Resolved::Integer(5))))
    ));
    let mut v = OptionValue::String("s".to_string());
    assert!(matches!(
        resolve_autocompleted(Unvalidated::String, Some(&mut v)),
        Ok(Autocompleted::Unfocused(Some(Resolved::String(s)))) if s == "s"
    ));
}

#[test]
fn created_options_carry_their_validation() {
    let spec = create(
        OptionShape { kind: OptionKind::String, length: Some(LengthBounds { min: 2, max: 9 }), optional: false },
        "name".to_string(),
        "desc".to_string(),
    );
    assert_eq!(spec.kind, OptionKind::String);
    assert_eq!(spec.name, "name");
    assert_eq!(spec.description, "desc");
    assert!(spec.required);
    assert_eq!(spec.min_length, Some(2));
    assert_eq!(spec.max_length, Some(9));
    let spec = create(
        OptionShape { kind: OptionKind::Integer, length: None, optional: true },
        "n".to_string(),
        "d".to_string(),
    );
    assert!(!spec.required);
    assert_eq!(spec.min_length, None);
}
