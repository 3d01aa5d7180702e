use tranquil::l10n::{
    get_default_translation, CommandL10nProvider, CommandPathRef, CommandTranslations, L10nLoadError,
    L10nLoadErrors, OptionTranslations, TranslatedCommands, Translations,
};
use tranquil::locale::Locale;

fn translations(entries: &[(Locale, &str)]) -> Translations {
    Translations { entries: entries.iter().map(|(l, t)| (*l, t.to_string())).collect() }
}

fn ping() -> CommandTranslations {
    CommandTranslations {
        name: translations(&[(Locale::German, "pingen")]),
        description: translations(&[(Locale::EnglishUS, "Checks the latency"), (Locale::German, "Prüft")]),
        subcommands: vec![(
            "sub".to_string(),
            CommandTranslations {
                name: translations(&[]),
                description: translations(&[(Locale::EnglishUS, "A subcommand")]),
                subcommands: vec![],
                options: vec![],
            },
        )],
        options: vec![(
            "target".to_string(),
            OptionTranslations {
                name: translations(&[(Locale::French, "cible")]),
                description: translations(&[(Locale::EnglishUS, "Whom to ping")]),
            },
        )],
    }
}

#[test]
fn default_translation_is_english_or_not_available() {
    let t = translations(&[(Locale::German, "Hallo"), (Locale::EnglishUS, "Hello")]);
    assert_eq!(get_default_translation(Some(&t)), "Hello");
    let t = translations(&[(Locale::German, "Hallo")]);
    assert_eq!(get_default_translation(Some(&t)), "n/a");
    assert_eq!(get_default_translation(None), "n/a");
}

#[test]
fn path_refs_name_their_last_part() {
    assert_eq!(CommandPathRef::Command { name: "a" }.subcommand(), "a");
    assert_eq!(CommandPathRef::Subcommand { name: "a", subcommand: "b" }.subcommand(), "b");
    assert_eq!(CommandPathRef::Grouped { name: "a", group: "g", subcommand: "c" }.subcommand(), "c");
}

#[test]
fn commands_are_described_with_their_translations() {
    let l10n = TranslatedCommands { commands: vec![("ping".to_string(), ping())] };
    let d = l10n.describe_command("ping");
    assert_eq!(d.name, "ping");
    assert_eq!(d.description, "Checks the latency");
    assert_eq!(d.name_localizations, vec![(Locale::German, "pingen".to_string())]);
    assert_eq!(d.description_localizations.len(), 2);

    let d = l10n.describe_subcommand(CommandPathRef::Subcommand { name: "ping", subcommand: "sub" });
    assert_eq!(d.name, "sub");
    assert_eq!(d.description, "A subcommand");

    let d = l10n.describe_option(CommandPathRef::Command { name: "ping" }, "target");
    assert_eq!(d.name, "target");
    assert_eq!(d.description, "Whom to ping");
    assert_eq!(d.name_localizations, vec![(Locale::French, "cible".to_string())]);

    let d = l10n.describe_command("unknown");
    assert_eq!(d.name, "unknown");
    assert_eq!(d.description, "n/a");
    assert!(d.name_localizations.is_empty());
    assert!(d.description_localizations.is_empty());
}

#[test]
fn loaded_files_are_combined() {
    let a = TranslatedCommands { commands: vec![("ping".to_string(), ping())] };
    let b = TranslatedCommands { commands: vec![("pong".to_string(), ping())] };
    let all = TranslatedCommands::from_loaded(vec![("a.toml".to_string(), Ok(a)), ("b.toml".to_string(), Ok(b))])
        .unwrap();
    let names: Vec<&str> = all.commands.iter().map(|(n, _)| n.as_str()).collect();
    assert_eq!(names, vec!["ping", "pong"]);
    assert!(TranslatedCommands::new().commands.is_empty());
}

#[test]
fn duplicate_commands_and_broken_files_are_all_reported() {
    let a = TranslatedCommands { commands: vec![("ping".to_string(), ping())] };
    let b = TranslatedCommands { commands: vec![("ping".to_string(), ping())] };
    let errors = TranslatedCommands::from_loaded(vec![
        ("a.toml".to_string(), Ok(a)),
        ("b.toml".to_string(), Ok(b)),
        ("c.toml".to_string(), Err(L10nLoadError::Parse { message: "bad toml".to_string() })),
    ])
    .unwrap_err();
    assert_eq!(
        errors,
        L10nLoadErrors {
            errors: vec![
                L10nLoadError::DuplicateCommand { filename: "b.toml".to_string() },
                L10nLoadError::Parse { message: "bad toml".to_string() },
            ],
        }
    );
    assert_eq!(errors.message(), "duplicate command in b.toml\nbad toml\n");
    assert_eq!(L10nLoadError::Io { message: "gone".to_string() }.message(), "gone");
}

struct NoFile;

impl CommandL10nProvider for NoFile {}

#[test]
fn providers_have_no_translation_file_by_default() {
    assert_eq!(NoFile.l10n_path(), None);
}
