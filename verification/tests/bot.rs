use tranquil::bot::{
    create_application_commands, load_command_map, load_custom_id_map, notify_connect, plan_update,
    AppCommandBody, AppSubcommand, ApplicationCommandUpdate, DuplicateUuid, UpdateTarget,
};
use tranquil::command::{CommandMap, CommandPath};
use tranquil::l10n::{CommandTranslations, TranslatedCommands, Translations};
use tranquil::locale::Locale;

fn command(name: &str) -> CommandPath {
    CommandPath::Command { name: name.to_string() }
}

#[test]
fn module_maps_are_merged_in_order() {
    let a = CommandMap::new(vec![(command("a"), 1)]).unwrap();
    let b = CommandMap::new(vec![(command("b"), 2)]).unwrap();
    let map = load_command_map(vec![a, b]).unwrap();
    assert_eq!(map.find_command(&command("a")), Some(&1));
    assert_eq!(map.find_command(&command("b")), Some(&2));
    let a = CommandMap::new(vec![(command("a"), 1)]).unwrap();
    let b = CommandMap::new(vec![(command("a"), 2)]).unwrap();
    assert_eq!(load_command_map(vec![a, b]).unwrap_err().message(), "duplicate command `/a`");
    let empty: CommandMap<u8> = load_command_map(vec![]).unwrap();
    assert!(empty.entries().is_empty());
}

#[test]
fn custom_ids_map_to_their_modules() {
    let map = load_custom_id_map(&vec![vec![10, 20], vec![], vec![30]]).unwrap();
    assert_eq!(map, vec![(10, 0), (20, 0), (30, 2)]);
    assert_eq!(load_custom_id_map(&vec![vec![1, 2], vec![3, 2, 1]]), Err(DuplicateUuid { uuid: 2 }));
    assert_eq!(load_custom_id_map(&vec![vec![5, 5]]), Err(DuplicateUuid { uuid: 5 }));
}

#[test]
fn connecting_is_reported_once_as_first() {
    let mut connected = false;
    assert_eq!(notify_connect(&mut connected, "Bot", 1), (true, "Connected as Bot to 1 guild".to_string()));
    assert!(connected);
    assert_eq!(
        notify_connect(&mut connected, "Bot", 3),
        (false, "Reconnected as Bot to 3 guilds".to_string())
    );
    assert_eq!(
        notify_connect(&mut false, "X", 0),
        (true, "Connected as X to 0 guilds".to_string())
    );
}

#[test]
fn updates_go_where_they_are_asked_to() {
    let (target, message) = plan_update(&ApplicationCommandUpdate::Global, 1, &vec![]);
    assert_eq!(target, UpdateTarget::Global);
    assert_eq!(message, "Updating 1 application command globally...");
    let (target, message) = plan_update(&ApplicationCommandUpdate::Connected, 3, &vec![7, 8]);
    assert_eq!(target, UpdateTarget::Guilds(vec![7, 8]));
    assert_eq!(message, "Updating 3 application commands for all 2 connected guilds...");
    let (target, message) = plan_update(&ApplicationCommandUpdate::Only(vec![5]), 0, &vec![7, 8]);
    assert_eq!(target, UpdateTarget::Guilds(vec![5]));
    assert_eq!(message, "Updating 0 application commands only for the 1 specified guild...");
    assert_eq!(ApplicationCommandUpdate::default_update(), ApplicationCommandUpdate::Global);
}

#[test]
fn application_commands_follow_the_map() {
    let map = CommandMap::new(vec![
        (command("ping"), 1),
        (CommandPath::Subcommand { name: "admin".to_string(), subcommand: "ban".to_string() }, 2),
        (
            CommandPath::Grouped {
                name: "admin".to_string(),
                group: "role".to_string(),
                subcommand: "add".to_string(),
            },
            3,
        ),
    ])
    .unwrap();
    let l10n = TranslatedCommands {
        commands: vec![(
            "ping".to_string(),
            CommandTranslations {
                name: Translations { entries: vec![] },
                description: Translations { entries: vec![(Locale::EnglishUS, "Pong!".to_string())] },
                subcommands: vec![],
                options: vec![],
            },
        )],
    };
    let commands = create_application_commands(&map, &l10n);
    assert_eq!(commands.len(), 2);
    assert_eq!(commands[0].description.name, "ping");
    assert_eq!(commands[0].description.description, "Pong!");
    assert!(matches!(commands[0].body, AppCommandBody::Command(&1)));
    assert_eq!(commands[1].description.name, "admin");
    assert_eq!(commands[1].description.description, "n/a");
    match &commands[1].body {
        AppCommandBody::Subcommands(subs) => {
            assert_eq!(subs.len(), 2);
            assert_eq!(subs[0].0.name, "ban");
            assert!(matches!(subs[0].1, AppSubcommand::Subcommand(&2)));
            assert_eq!(subs[1].0.name, "role");
            match &subs[1].1 {
                AppSubcommand::Group(group) => {
                    assert_eq!(group.len(), 1);
                    assert_eq!(group[0].0.name, "add");
                    assert_eq!(*group[0].1, 3);
                },
                AppSubcommand::Subcommand(_) => panic!("expected a group"),
            }
        },
        AppCommandBody::Command(_) => panic!("expected subcommands"),
    }
}
