use tranquil::bot::{
    guild_fallback_name, resolve_custom_id_module, route_command, route_component, route_custom_id, update_report,
    ComponentKind, NoModule, RouteError,
};
use tranquil::command::{CommandMap, CommandPath};
use tranquil::custom_id::{custom_id_for, custom_id_decode, CustomIdError};
use tranquil::utils::{invalid_var_message, missing_var_message};

#[test]
fn known_commands_run_and_unknown_ones_explain() {
    let map = CommandMap::new(vec![(CommandPath::Command { name: "ping".to_string() }, 1)]).unwrap();
    assert_eq!(route_command(&map, &CommandPath::Command { name: "ping".to_string() }), Ok(&1));
    let unknown = CommandPath::Subcommand { name: "ping".to_string(), subcommand: "x".to_string() };
    assert_eq!(
        route_command(&map, &unknown),
        Err((":x: Unknown command: `/ping x`".to_string(), "Bot commands are likely outdated.".to_string()))
    );
}

#[test]
fn custom_ids_reach_their_module() {
    let map = vec![(11u128, 0usize), (22, 3)];
    assert_eq!(resolve_custom_id_module(&map, 22), Ok(3));
    assert_eq!(resolve_custom_id_module(&map, 33), Err(NoModule { uuid: 33 }));
    let custom_id = custom_id_for(22, b"state");
    let (module, uuid, state) = route_custom_id(&map, &custom_id).unwrap();
    assert_eq!((module, uuid), (3, 22));
    assert_eq!(custom_id_decode(&state), b"state".to_vec());
    let custom_id = custom_id_for(44, b"");
    assert!(matches!(route_custom_id(&map, &custom_id), Err(RouteError::NoModule(NoModule { uuid: 44 }))));
    assert!(matches!(
        route_custom_id(&map, "garbage"),
        Err(RouteError::CustomId(CustomIdError::Invalid { .. }))
    ));
}

#[test]
fn reports_name_guilds_and_errors() {
    assert_eq!(guild_fallback_name(123456789012345678), "<123456789012345678>");
    assert_eq!(update_report("globally", None), " ✓ globally");
    assert_eq!(update_report("Guild", Some("Missing Access")), " ⚠ Guild\n   ▶ Missing Access");
    assert_eq!(missing_var_message("DISCORD_TOKEN"), "DISCORD_TOKEN environment variable not found");
    assert_eq!(invalid_var_message("DEBUG_GUILDS"), "DEBUG_GUILDS invalid");
}

#[test]
fn errors_show_uuids_hyphenated() {
    let id: u128 = 0x67e5504410b1426f9247bb680e5fe0c8;
    assert_eq!(tranquil::custom_id::uuid_hyphenated(id), "67e55044-10b1-426f-9247-bb680e5fe0c8");
    assert_eq!(
        NoModule { uuid: id }.message(),
        "no module that handles the custom_id uuid 67e55044-10b1-426f-9247-bb680e5fe0c8"
    );
    assert_eq!(
        tranquil::bot::DuplicateUuid { uuid: 1 }.message(),
        "duplicate interaction uuid: 00000000-0000-0000-0000-000000000001"
    );
    assert_eq!(
        CustomIdError::Invalid { custom_id: "x".to_string() }.message(),
        "invalid custom_id: x"
    );
    assert_eq!(
        CustomIdError::InvalidUuid { uuid: "zz".to_string() }.message(),
        "invalid custom_id uuid: zz"
    );
}

#[test]
fn only_buttons_and_select_menus_are_routed() {
    let map = vec![(22u128, 3usize)];
    let custom_id = custom_id_for(22, b"s");
    assert!(matches!(route_component(&map, ComponentKind::Button, &custom_id), Some(Ok((3, 22, _)))));
    assert!(matches!(route_component(&map, ComponentKind::SelectMenu, &custom_id), Some(Ok((3, 22, _)))));
    assert!(route_component(&map, ComponentKind::InputText, &custom_id).is_none());
    assert!(route_component(&map, ComponentKind::ActionRow, &custom_id).is_none());
    assert!(route_component(&map, ComponentKind::Other, "garbage").is_none());
    assert!(matches!(
        route_component(&map, ComponentKind::Button, "garbage"),
        Some(Err(RouteError::CustomId(CustomIdError::Invalid { .. })))
    ));
}
