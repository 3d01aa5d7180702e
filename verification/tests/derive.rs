use tranquil::command_derive::{
    check_variants, plan_command, plan_option, CommandData, CommandField, CommandInput, CommandVariant,
    DeriveError,
};
use tranquil::doc_comment::DocError;

fn field(name: Option<&str>, doc: &[&str]) -> CommandField {
    CommandField {
        ident: name.map(|n| n.to_string()),
        doc: doc.iter().map(|l| Some(l.to_string())).collect(),
        autocomplete: false,
    }
}

fn variant(ident: &str, fields: Vec<CommandField>, end_group: bool) -> CommandVariant {
    CommandVariant {
        ident: ident.to_string(),
        fields,
        doc: vec![],
        end_group: if end_group { Some("end_group".to_string()) } else { None },
    }
}

#[test]
fn group_markers_and_members() {
    let group = variant("Admin", vec![field(None, &[])], false);
    assert!(group.is_group());
    assert!(!variant("Ping", vec![], false).is_group());
    assert!(!variant("Ping", vec![field(Some("x"), &[])], false).is_group());
    assert!(variant("AdminBan", vec![], false).is_in_group("Admin"));
    assert!(variant("Admin", vec![], false).is_in_group("Admin"));
    assert!(!variant("Ping", vec![], false).is_in_group("Admin"));
}

#[test]
fn valid_groups_pass() {
    let variants = vec![
        variant("Admin", vec![field(None, &[])], false),
        variant("AdminBan", vec![field(Some("user"), &[])], false),
        variant("AdminKick", vec![], true),
        variant("Ping", vec![], false),
    ];
    assert!(check_variants(&variants).is_ok());
    let variants = vec![
        variant("Admin", vec![field(None, &[])], false),
        variant("AdminBan", vec![], false),
        variant("Ping", vec![], false),
        variant("PingOther", vec![], false),
    ];
    assert!(check_variants(&variants).is_ok());
}

#[test]
fn group_marker_with_two_fields_is_invalid() {
    let variants = vec![variant("Admin", vec![field(None, &[]), field(None, &[])], false)];
    assert!(matches!(check_variants(&variants), Err(DeriveError::InvalidCommandGroup { variant: 0 })));
}

#[test]
fn group_marker_with_end_group_is_invalid() {
    let variants = vec![variant("Ping", vec![], false), variant("Admin", vec![field(None, &[])], true)];
    assert!(matches!(check_variants(&variants), Err(DeriveError::InvalidEndGroup { variant: 1 })));
    assert!(matches!(variants[1].validate(1), Err(DeriveError::InvalidEndGroup { variant: 1 })));
}

#[test]
fn end_group_outside_the_group_is_invalid() {
    let variants = vec![variant("Admin", vec![field(None, &[])], false), variant("Ping", vec![], true)];
    assert!(matches!(check_variants(&variants), Err(DeriveError::InvalidEndGroup { variant: 1 })));
}

#[test]
fn command_struct_plans_each_option() {
    let input = CommandInput {
        ident: "Echo".to_string(),
        doc: vec![Some(" Repeats a message".to_string())],
        data: CommandData::Struct(vec![
            field(Some("message"), &[" `text` What to repeat"]),
            field(Some("count"), &["`Bad!` oops"]),
        ]),
        nsfw: true,
    };
    let plan = plan_command(&input).unwrap();
    assert_eq!(plan.name_description.name.default, "echo");
    assert_eq!(plan.name_description.description.default, "Repeats a message");
    assert!(plan.nsfw);
    assert_eq!(plan.options.len(), 2);
    let first = plan.options[0].as_ref().unwrap();
    assert_eq!(first.name.default, "text");
    assert_eq!(first.description.default, "What to repeat");
    assert!(matches!(plan.options[1], Err(DocError::InvalidChars { line: 0, .. })));
}

#[test]
fn option_without_doc_is_named_after_its_field() {
    let nd = plan_option(&field(Some("user_name"), &[])).unwrap();
    assert_eq!(nd.name.default, "user-name");
    assert_eq!(nd.description.default, "n/a");
}

#[test]
fn command_enum_checks_its_variants() {
    let input = CommandInput {
        ident: "Admin".to_string(),
        doc: vec![],
        data: CommandData::Enum(vec![variant("Admin", vec![field(None, &[]), field(None, &[])], false)]),
        nsfw: false,
    };
    assert!(matches!(plan_command(&input), Err(DeriveError::InvalidCommandGroup { variant: 0 })));
    let input = CommandInput {
        ident: "Admin".to_string(),
        doc: vec![Some("`Admin` x".to_string())],
        data: CommandData::Enum(vec![]),
        nsfw: false,
    };
    assert!(matches!(plan_command(&input), Err(DeriveError::Doc(DocError::InvalidChars { .. }))));
    let input = CommandInput {
        ident: "Admin".to_string(),
        doc: vec![],
        data: CommandData::Enum(vec![variant("Ban", vec![], false)]),
        nsfw: false,
    };
    let plan = plan_command(&input).unwrap();
    assert_eq!(plan.name_description.name.default, "admin");
    assert!(plan.options.is_empty());
}
