use tranquil::command::{CommandMap, CommandMapEntry, CommandMapMergeError, CommandPath, SubcommandMapEntry};

fn command(name: &str) -> CommandPath {
    CommandPath::Command { name: name.to_string() }
}

fn subcommand(name: &str, subcommand: &str) -> CommandPath {
    CommandPath::Subcommand { name: name.to_string(), subcommand: subcommand.to_string() }
}

fn grouped(name: &str, group: &str, subcommand: &str) -> CommandPath {
    CommandPath::Grouped {
        name: name.to_string(),
        group: group.to_string(),
        subcommand: subcommand.to_string(),
    }
}

#[test]
fn paths_have_names_and_text() {
    assert_eq!(command("ping").name(), "ping");
    assert_eq!(grouped("config", "get", "x").name(), "config");
    assert_eq!(command("ping").to_text(), "ping");
    assert_eq!(subcommand("admin", "ban").to_text(), "admin ban");
    assert_eq!(grouped("config", "get", "x").to_text(), "config get x");
}

#[test]
fn each_path_finds_its_command() {
    let map = CommandMap::new(vec![
        (command("ping"), 1),
        (subcommand("admin", "ban"), 2),
        (subcommand("admin", "kick"), 3),
        (grouped("config", "get", "x"), 4),
        (grouped("config", "get", "y"), 5),
        (grouped("config", "set", "x"), 6),
    ])
    .unwrap();
    assert_eq!(map.find_command(&command("ping")), Some(&1));
    assert_eq!(map.find_command(&subcommand("admin", "ban")), Some(&2));
    assert_eq!(map.find_command(&subcommand("admin", "kick")), Some(&3));
    assert_eq!(map.find_command(&grouped("config", "get", "x")), Some(&4));
    assert_eq!(map.find_command(&grouped("config", "get", "y")), Some(&5));
    assert_eq!(map.find_command(&grouped("config", "set", "x")), Some(&6));
    assert_eq!(map.find_command(&command("admin")), None);
    assert_eq!(map.find_command(&subcommand("config", "get")), None);
    assert_eq!(map.find_command(&grouped("admin", "ban", "x")), None);
    assert_eq!(map.find_command(&command("missing")), None);
}

#[test]
fn map_keeps_names_in_order_of_entry() {
    let map = CommandMap::new(vec![
        (command("b"), 1),
        (subcommand("a", "x"), 2),
        (subcommand("a", "y"), 3),
    ])
    .unwrap();
    let names: Vec<&str> = map.entries().iter().map(|(n, _)| n.as_str()).collect();
    assert_eq!(names, vec!["b", "a"]);
    match &map.entries()[1].1 {
        CommandMapEntry::Subcommands(s) => {
            let subs: Vec<&str> = s.entries().iter().map(|(n, _)| n.as_str()).collect();
            assert_eq!(subs, vec!["x", "y"]);
            assert!(matches!(s.entries()[0].1, SubcommandMapEntry::Subcommand(2)));
        },
        CommandMapEntry::Command(_) => panic!("expected subcommands"),
    }
}

#[test]
fn duplicate_command_is_refused() {
    let err = CommandMap::new(vec![(command("a"), 1), (command("a"), 2)]).unwrap_err();
    assert!(matches!(&err, CommandMapMergeError::DuplicateCommand { path } if *path == command("a")));
    assert_eq!(err.message(), "duplicate command `/a`");
}

#[test]
fn command_with_subcommands_is_refused() {
    let err = CommandMap::new(vec![(command("a"), 1), (subcommand("a", "b"), 2)]).unwrap_err();
    assert!(matches!(&err, CommandMapMergeError::AmbiguousSubcommand { path } if *path == command("a")));
    assert_eq!(err.message(), "command `/a` cannot also have subcommands");
}

#[test]
fn subcommand_with_group_of_same_name_is_refused() {
    let err = CommandMap::new(vec![(subcommand("a", "b"), 1), (grouped("a", "b", "c"), 2)]).unwrap_err();
    assert!(matches!(&err, CommandMapMergeError::AmbiguousSubcommand { path } if *path == subcommand("a", "b")));
    assert_eq!(err.message(), "command `/a b` cannot also have subcommands");
}

#[test]
fn duplicate_grouped_and_subcommand_are_refused() {
    let err = CommandMap::new(vec![(grouped("a", "g", "s"), 1), (grouped("a", "g", "s"), 2)]).unwrap_err();
    assert!(matches!(&err, CommandMapMergeError::DuplicateCommand { path } if *path == grouped("a", "g", "s")));
    assert_eq!(err.message(), "duplicate command `/a g s`");
    let err = CommandMap::new(vec![(subcommand("a", "s"), 1), (subcommand("a", "s"), 2)]).unwrap_err();
    assert!(matches!(&err, CommandMapMergeError::DuplicateCommand { path } if *path == subcommand("a", "s")));
}

#[test]
fn merging_maps_combines_their_commands() {
    let first = CommandMap::new(vec![(subcommand("a", "x"), 1), (command("p"), 2)]).unwrap();
    let second = CommandMap::new(vec![(subcommand("a", "y"), 3), (command("q"), 4)]).unwrap();
    let merged = first.merge(second).unwrap();
    assert_eq!(merged.find_command(&subcommand("a", "x")), Some(&1));
    assert_eq!(merged.find_command(&subcommand("a", "y")), Some(&3));
    assert_eq!(merged.find_command(&command("p")), Some(&2));
    assert_eq!(merged.find_command(&command("q")), Some(&4));

    let first = CommandMap::new(vec![(command("p"), 1)]).unwrap();
    let second = CommandMap::new(vec![(command("p"), 2)]).unwrap();
    assert!(first.merge(second).is_err());
}

#[test]
fn empty_map_finds_nothing() {
    let map: CommandMap<u8> = CommandMap::empty();
    assert!(map.entries().is_empty());
    assert_eq!(map.find_command(&command("x")), None);
    let map: CommandMap<u8> = CommandMap::new(vec![]).unwrap();
    assert!(map.entries().is_empty());
}
