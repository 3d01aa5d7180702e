use tranquil::command::CommandPath;
use tranquil::option::OptionKind;
use tranquil::resolve::{
    bounded_string, find_options, has_focus, integer_bounds, resolve_bounded_integer, resolve_bool, resolve_channel,
    resolve_command_options, resolve_i64, resolve_integer, resolve_mentionable, resolve_option, resolve_partial_member,
    resolve_string, resolve_user, DataOption, IntegerType, Mentionable, ResolveError, ResolvedValue,
    DISCORD_MAX_INTEGER, DISCORD_MIN_INTEGER,
};

type Value = ResolvedValue<&'static str, &'static str, &'static str, &'static str, &'static str>;

fn option(name: &str, kind: OptionKind, options: Vec<DataOption<Value>>, resolved: Option<Value>) -> DataOption<Value> {
    DataOption { name: name.to_string(), kind, options, resolved, focused: false }
}

fn value(name: &str, v: Value) -> DataOption<Value> {
    option(name, OptionKind::String, vec![], Some(v))
}

#[test]
fn options_are_found_by_name_in_order() {
    let options = vec![
        value("a", ResolvedValue::Integer(1)),
        value("b", ResolvedValue::Integer(2)),
        value("b", ResolvedValue::Integer(3)),
    ];
    let found = find_options(&vec!["b", "a", "b", "b", "c"], options);
    let ints: Vec<Option<i64>> = found
        .into_iter()
        .map(|o| o.map(|o| match o.resolved {
            Some(ResolvedValue::Integer(i)) => i,
            _ => panic!("unexpected value"),
        }))
        .collect();
    assert_eq!(ints, vec![Some(2), Some(1), Some(3), None, None]);
}

#[test]
fn options_of_sole_subcommands_are_reached() {
    let leaf = || vec![value("x", ResolvedValue::Integer(1))];
    let sub = option("sub", OptionKind::SubCommand, leaf(), None);
    let group = option("grp", OptionKind::SubCommandGroup, vec![sub], None);
    let resolved = resolve_command_options(vec![group]);
    assert_eq!(resolved.len(), 1);
    assert_eq!(resolved[0].name, "x");

    let sub = option("sub", OptionKind::SubCommand, leaf(), None);
    let resolved = resolve_command_options(vec![sub]);
    assert_eq!(resolved[0].name, "x");

    let plain = resolve_command_options(vec![value("p", ResolvedValue::Boolean(true)), value("q", ResolvedValue::Boolean(false))]);
    assert_eq!(plain.len(), 2);
    assert!(resolve_command_options::<Value>(vec![]).is_empty());
}

#[test]
fn command_paths_are_resolved_from_options() {
    let name = "cmd".to_string();
    assert_eq!(CommandPath::resolve(&name, &Vec::<DataOption<Value>>::new()), CommandPath::Command { name: "cmd".to_string() });
    let sub = vec![option("sub", OptionKind::SubCommand, vec![value("x", ResolvedValue::Integer(1))], None)];
    assert_eq!(
        CommandPath::resolve(&name, &sub),
        CommandPath::Subcommand { name: "cmd".to_string(), subcommand: "sub".to_string() }
    );
    let grouped = vec![option(
        "grp",
        OptionKind::SubCommandGroup,
        vec![option("leaf", OptionKind::SubCommand, vec![], None)],
        None,
    )];
    assert_eq!(
        CommandPath::resolve(&name, &grouped),
        CommandPath::Grouped { name: "cmd".to_string(), group: "grp".to_string(), subcommand: "leaf".to_string() }
    );
    let plain = vec![value("x", ResolvedValue::Integer(1))];
    assert_eq!(CommandPath::resolve(&name, &plain), CommandPath::Command { name: "cmd".to_string() });
}

#[test]
fn missing_and_unresolved_options_fail() {
    assert!(matches!(resolve_option::<Value>(None), Err(ResolveError::Missing)));
    assert!(matches!(resolve_option(Some(option("x", OptionKind::String, vec![], None))), Err(ResolveError::Unresolvable)));
    assert!(matches!(resolve_string(Some(value("x", ResolvedValue::Integer(1)))), Err(ResolveError::InvalidType)));
    assert_eq!(resolve_string(Some(value("x", ResolvedValue::String("s".to_string())))).unwrap(), "s");
    assert_eq!(resolve_i64(Some(value("x", ResolvedValue::Integer(-3)))).unwrap(), -3);
    assert!(resolve_bool(Some(value("x", ResolvedValue::Boolean(true)))).unwrap());
    assert_eq!(resolve_channel(Some(value("x", ResolvedValue::Channel("general")))).unwrap(), "general");
}

#[test]
fn users_members_and_mentionables() {
    assert_eq!(resolve_user(Some(value("u", ResolvedValue::User("ann", Some("member"))))).unwrap(), "ann");
    assert_eq!(resolve_partial_member(Some(value("u", ResolvedValue::User("ann", Some("member"))))).unwrap(), "member");
    assert!(matches!(
        resolve_partial_member(Some(value("u", ResolvedValue::User("ann", None)))),
        Err(ResolveError::NoPartialMemberData)
    ));
    assert!(matches!(
        resolve_mentionable(Some(value("m", ResolvedValue::Role("mods")))),
        Ok(Mentionable::Role("mods"))
    ));
    assert!(matches!(
        resolve_mentionable(Some(value("m", ResolvedValue::User("ann", None)))),
        Ok(Mentionable::User("ann", None))
    ));
    assert!(matches!(resolve_mentionable(Some(value("m", ResolvedValue::Integer(1)))), Err(ResolveError::InvalidType)));
}

#[test]
fn focus_is_read_from_the_option() {
    let mut o = value("x", ResolvedValue::Integer(1));
    assert!(!has_focus(&Some(value("x", ResolvedValue::Integer(1)))));
    o.focused = true;
    assert!(has_focus(&Some(o)));
    assert!(!has_focus::<Value>(&None));
}

#[test]
fn integer_bounds_are_clamped_to_discord() {
    assert_eq!(integer_bounds(IntegerType::U8), (Some(0), Some(255)));
    assert_eq!(integer_bounds(IntegerType::I16), (Some(-32768), Some(32767)));
    assert_eq!(integer_bounds(IntegerType::U64), (Some(0), None));
    assert_eq!(integer_bounds(IntegerType::U128), (Some(0), None));
    assert_eq!(integer_bounds(IntegerType::I128), (None, None));
    assert_eq!(integer_bounds(IntegerType::U32), (Some(0), Some(4294967295)));
    assert_eq!(integer_bounds(IntegerType::Isize), (Some(DISCORD_MIN_INTEGER), Some(DISCORD_MAX_INTEGER)));
    assert_eq!(DISCORD_MAX_INTEGER, 9007199254740991);
}

#[test]
fn integers_convert_within_their_type() {
    assert_eq!(resolve_integer(IntegerType::I8, -5).unwrap(), -5);
    assert_eq!(resolve_integer(IntegerType::U8, 255).unwrap(), 255);
    assert!(matches!(resolve_integer(IntegerType::U8, 256), Err(ResolveError::TryFromIntError(_))));
    assert!(matches!(resolve_integer(IntegerType::U64, -1), Err(ResolveError::TryFromIntError(_))));
    assert_eq!(resolve_integer(IntegerType::I128, i64::MIN).unwrap(), i64::MIN as i128);
    assert_eq!(resolve_bounded_integer(IntegerType::I32, 0, 10, 10).unwrap(), 10);
    assert!(matches!(resolve_bounded_integer(IntegerType::I32, 0, 10, 11), Err(ResolveError::IntegerRangeError)));
    assert!(matches!(resolve_bounded_integer(IntegerType::U16, 0, 10, -1), Err(ResolveError::TryFromIntError(_))));
}

#[test]
fn bounded_strings_check_their_length_in_characters() {
    assert_eq!(bounded_string(Some(2), Some(3), "abc".to_string()).unwrap(), "abc");
    assert!(matches!(bounded_string(Some(2), Some(3), "abcd".to_string()), Err(ResolveError::StringLengthError)));
    assert!(matches!(bounded_string(Some(2), None, "é".to_string()), Err(ResolveError::StringLengthError)));
    assert_eq!(bounded_string(None, Some(2), "éé".to_string()).unwrap(), "éé");
    assert!(matches!(bounded_string(None, Some(2), "ééé".to_string()), Err(ResolveError::StringLengthError)));
    assert_eq!(bounded_string(None, None, String::new()).unwrap(), "");
}
