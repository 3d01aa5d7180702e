//! Translations of command names and descriptions, loaded from files and
//! looked up by command path.

use vstd::prelude::*;

use crate::assoc::{
    assoc_find, find_key, has_key, keys_unique, lemma_assoc_find_first, lemma_assoc_find_none,
    lemma_keys_unique_push,
};
use crate::command::PathView;
use crate::locale::Locale;
use crate::text::{append_str, string_of};

verus! {

/// Translations of one text, by locale.
#[derive(Clone, Debug, PartialEq, Eq)]
pub struct Translations {
    pub entries: Vec<(Locale, String)>,
}

/// The translations of an option of a command.
#[derive(Clone, Debug, PartialEq, Eq)]
pub struct OptionTranslations {
    pub name: Translations,
    pub description: Translations,
}

/// The translations of a command, its subcommands and its options.
#[derive(Debug)]
pub struct CommandTranslations {
    pub name: Translations,
    pub description: Translations,
    pub subcommands: Vec<(String, CommandTranslations)>,
    pub options: Vec<(String, OptionTranslations)>,
}

/// The translations of all commands, by command name.
#[derive(Debug)]
pub struct TranslatedCommands {
    pub commands: Vec<(String, CommandTranslations)>,
}

/// A command path whose names are borrowed.
#[derive(Clone, Copy, Debug, PartialEq, Eq)]
pub enum CommandPathRef<'a> {
    Command { name: &'a str },
    Subcommand { name: &'a str, subcommand: &'a str },
    Grouped { name: &'a str, group: &'a str, subcommand: &'a str },
}

impl<'a> View for CommandPathRef<'a> {
    type V = PathView;

    open spec fn view(&self) -> PathView {
        match self {
            CommandPathRef::Command { name } => PathView::Command(name@),
            CommandPathRef::Subcommand { name, subcommand } => PathView::Subcommand(name@, subcommand@),
            CommandPathRef::Grouped { name, group, subcommand } => PathView::Grouped(
                name@,
                group@,
                subcommand@,
            ),
        }
    }
}

/// The last name of a path: the command, or its subcommand.
pub open spec fn path_last(p: PathView) -> Seq<char> {
    match p {
        PathView::Command(n) => n,
        PathView::Subcommand(_, s) => s,
        PathView::Grouped(_, _, s) => s,
    }
}

impl<'a> CommandPathRef<'a> {
    /// The last name of this path: the command, or its subcommand.
    pub fn subcommand(self) -> (r: &'a str)
        ensures
            r@ == path_last(self@),
    {
        match self {
            CommandPathRef::Command { name } => name,
            CommandPathRef::Subcommand { subcommand, .. } => subcommand,
            CommandPathRef::Grouped { subcommand, .. } => subcommand,
        }
    }
}

/// The text that stands where no translation is given.
pub open spec fn not_available() -> Seq<char> {
    seq!['n', '/', 'a']
}

/// The text in the default locale, or "n/a".
pub open spec fn default_translation(translations: Option<Translations>) -> Seq<char> {
    match translations {
        Some(t) => match assoc_find(t.entries@, Locale::EnglishUS) {
            Some(s) => s@,
            None => not_available(),
        },
        None => not_available(),
    }
}

/// The position of the translation for `locale`, if any.
fn find_locale(entries: &Vec<(Locale, String)>, locale: Locale) -> (r: Option<usize>)
    ensures
        match r {
            Some(i) => i < entries@.len() && entries@[i as int].0 == locale && forall|j: int|
                0 <= j < i ==> #[trigger] entries@[j].0 != locale,
            None => !has_key(entries@, locale),
        },
{
    let mut i: usize = 0;
    while i < entries.len()
        invariant
            i <= entries@.len(),
            forall|j: int| 0 <= j < i ==> #[trigger] entries@[j].0 != locale,
        decreases entries@.len() - i,
    {
        if entries[i].0 == locale {
            return Some(i);
        }
        i += 1;
    }
    None
}

/// The translation in the default locale, or "n/a" where there is none.
pub fn get_default_translation(translations: Option<&Translations>) -> (r: &str)
    ensures
        r@ == default_translation(match translations {
            Some(t) => Some(*t),
            None => None,
        }),
{
    match translations {
        Some(t) => match find_locale(&t.entries, Locale::default_locale()) {
            Some(i) => {
                proof {
                    lemma_assoc_find_first(t.entries@, Locale::EnglishUS, i as int);
                }
                t.entries[i].1.as_str()
            },
            None => {
                proof {
                    lemma_assoc_find_none(t.entries@, Locale::EnglishUS);
                    reveal_strlit("n/a");
                }
                "n/a"
            },
        },
        None => {
            proof {
                reveal_strlit("n/a");
            }
            "n/a"
        },
    }
}

/// The entry for `key` in an association list keyed by strings.
fn find_entry<'b, V>(entries: &'b Vec<(String, V)>, key: &str) -> (r: Option<&'b V>)
    ensures
        match r {
            Some(v) => assoc_find(entries@, key@) == Some(*v),
            None => assoc_find(entries@, key@) is None,
        },
{
    match find_key(entries, key) {
        Some(i) => {
            proof {
                lemma_assoc_find_first(entries@, key@, i as int);
            }
            Some(&entries[i].1)
        },
        None => {
            proof {
                lemma_assoc_find_none(entries@, key@);
            }
            None
        },
    }
}

/// The translations of the subcommand `s` of the translations `c`.
pub open spec fn sub_translations(c: Option<CommandTranslations>, s: Seq<char>) -> Option<CommandTranslations> {
    match c {
        Some(c) => assoc_find(c.subcommands@, s),
        None => None,
    }
}

/// The name, description and their translations of a command or option, as
/// Discord is sent them.
#[derive(Clone, Debug, PartialEq, Eq)]
pub struct Description {
    pub name: String,
    pub description: String,
    pub name_localizations: Vec<(Locale, String)>,
    pub description_localizations: Vec<(Locale, String)>,
}

/// `d` describes `name` with the translations `names` and `descriptions`, if any.
pub open spec fn describes(d: Description, name: Seq<char>, names: Option<Translations>, descriptions: Option<Translations>) -> bool {
    &&& d.name@ == name
    &&& d.description@ == default_translation(descriptions)
    &&& d.name_localizations@ == match names {
        Some(t) => t.entries@,
        None => Seq::empty(),
    }
    &&& d.description_localizations@ == match descriptions {
        Some(t) => t.entries@,
        None => Seq::empty(),
    }
}

/// A copy of the translations.
fn copy_translations(t: &Translations) -> (r: Vec<(Locale, String)>)
    ensures
        r@ == t.entries@,
{
    let mut r: Vec<(Locale, String)> = Vec::new();
    let mut i: usize = 0;
    while i < t.entries.len()
        invariant
            i <= t.entries@.len(),
            r@ == t.entries@.subrange(0, i as int),
        decreases t.entries@.len() - i,
    {
        let entry = &t.entries[i];
        r.push((entry.0, entry.1.clone()));
        i += 1;
        assert(r@ =~= t.entries@.subrange(0, i as int));
    }
    assert(t.entries@.subrange(0, i as int) =~= t.entries@);
    r
}

/// Describes `name` with the translations `names` and `descriptions`, if any.
fn describe(name: &str, names: Option<&Translations>, descriptions: Option<&Translations>) -> (r: Description)
    ensures
        describes(
            r,
            name@,
            match names {
                Some(t) => Some(*t),
                None => None,
            },
            match descriptions {
                Some(t) => Some(*t),
                None => None,
            },
        ),
{
    let description = get_default_translation(descriptions);
    Description {
        name: name.to_owned(),
        description: description.to_owned(),
        name_localizations: match names {
            Some(t) => copy_translations(t),
            None => Vec::new(),
        },
        description_localizations: match descriptions {
            Some(t) => copy_translations(t),
            None => Vec::new(),
        },
    }
}

impl TranslatedCommands {
    /// No translations.
    pub fn new() -> (r: TranslatedCommands)
        ensures
            r.commands@.len() == 0,
    {
        TranslatedCommands { commands: Vec::new() }
    }

    /// The translations of the command at `path`.
    pub open spec fn path_translations(&self, path: PathView) -> Option<CommandTranslations> {
        match path {
            PathView::Command(n) => assoc_find(self.commands@, n),
            PathView::Subcommand(n, s) => sub_translations(assoc_find(self.commands@, n), s),
            PathView::Grouped(n, g, s) => sub_translations(
                sub_translations(assoc_find(self.commands@, n), g),
                s,
            ),
        }
    }

    /// The translations of the option `name` of the command at `path`.
    pub open spec fn option_translations(&self, path: PathView, name: Seq<char>) -> Option<OptionTranslations> {
        match self.path_translations(path) {
            Some(c) => assoc_find(c.options@, name),
            None => None,
        }
    }

    /// The translations of the top-level command `name`.
    fn resolve_name(&self, name: &str) -> (r: Option<&CommandTranslations>)
        ensures
            match r {
                Some(c) => assoc_find(self.commands@, name@) == Some(*c),
                None => assoc_find(self.commands@, name@) is None,
            },
    {
        find_entry(&self.commands, name)
    }

    /// The translations of the command at `path`.
    fn resolve_path(&self, path: CommandPathRef) -> (r: Option<&CommandTranslations>)
        ensures
            match r {
                Some(c) => self.path_translations(path@) == Some(*c),
                None => self.path_translations(path@) is None,
            },
    {
        match path {
            CommandPathRef::Command { name } => self.resolve_name(name),
            CommandPathRef::Subcommand { name, subcommand } => match self.resolve_name(name) {
                Some(c) => find_entry(&c.subcommands, subcommand),
                None => None,
            },
            CommandPathRef::Grouped { name, group, subcommand } => match self.resolve_name(name) {
                Some(c) => match find_entry(&c.subcommands, group) {
                    Some(g) => find_entry(&g.subcommands, subcommand),
                    None => None,
                },
                None => None,
            },
        }
    }

    /// The translations of the option `name` of the command at `path`.
    fn resolve_option(&self, path: CommandPathRef, name: &str) -> (r: Option<&OptionTranslations>)
        ensures
            match r {
                Some(o) => self.option_translations(path@, name@) == Some(*o),
                None => self.option_translations(path@, name@) is None,
            },
    {
        match self.resolve_path(path) {
            Some(c) => find_entry(&c.options, name),
            None => None,
        }
    }
}

/// Translations nest as paths do: a top-level command's translations are its
/// entry among the commands; a subcommand's are its entry among the
/// subcommands of its command's translations; and a subcommand in a group's
/// are its entry among the subcommands of the group's translations, which
/// are those of the path to the group.
pub proof fn lemma_translations_nest(t: TranslatedCommands, n: Seq<char>, g: Seq<char>, s: Seq<char>)
    ensures
        t.path_translations(PathView::Command(n)) == assoc_find(t.commands@, n),
        t.path_translations(PathView::Subcommand(n, s)) == match t.path_translations(PathView::Command(n)) {
            Some(c) => assoc_find(c.subcommands@, s),
            None => None,
        },
        t.path_translations(PathView::Grouped(n, g, s)) == match t.path_translations(PathView::Subcommand(n, g)) {
            Some(c) => assoc_find(c.subcommands@, s),
            None => None,
        },
        t.path_translations(PathView::Grouped(n, g, s)) is Some ==> t.path_translations(
            PathView::Subcommand(n, g),
        ) is Some,
{
}

impl TranslatedCommands {
    /// The top-level command `name`, described with its translations.
    pub fn describe_command(&self, name: &str) -> (r: Description)
        ensures
            describes(
                r,
                name@,
                match assoc_find(self.commands@, name@) {
                    Some(c) => Some(c.name),
                    None => None,
                },
                match assoc_find(self.commands@, name@) {
                    Some(c) => Some(c.description),
                    None => None,
                },
            ),
    {
        match self.resolve_name(name) {
            Some(c) => describe(name, Some(&c.name), Some(&c.description)),
            None => describe(name, None, None),
        }
    }

    /// The subcommand at `path`, described with its translations.
    pub fn describe_subcommand(&self, path: CommandPathRef) -> (r: Description)
        ensures
            describes(
                r,
                path_last(path@),
                match self.path_translations(path@) {
                    Some(c) => Some(c.name),
                    None => None,
                },
                match self.path_translations(path@) {
                    Some(c) => Some(c.description),
                    None => None,
                },
            ),
    {
        match self.resolve_path(path) {
            Some(c) => describe(path.subcommand(), Some(&c.name), Some(&c.description)),
            None => describe(path.subcommand(), None, None),
        }
    }

    /// The option `name` of the command at `path`, described with its translations.
    pub fn describe_option(&self, path: CommandPathRef, name: &str) -> (r: Description)
        ensures
            describes(
                r,
                name@,
                match self.option_translations(path@, name@) {
                    Some(o) => Some(o.name),
                    None => None,
                },
                match self.option_translations(path@, name@) {
                    Some(o) => Some(o.description),
                    None => None,
                },
            ),
    {
        match self.resolve_option(path, name) {
            Some(o) => describe(name, Some(&o.name), Some(&o.description)),
            None => describe(name, None, None),
        }
    }
}

/// Why a translation file could not be used.
#[derive(Debug, PartialEq, Eq)]
pub enum L10nLoadError {
    /// The file could not be read.
    Io { message: String },
    /// The file is no valid translation file.
    Parse { message: String },
    /// The file translates a command that an earlier file translated.
    DuplicateCommand { filename: String },
}

impl L10nLoadError {
    /// The message of this error.
    pub fn message(&self) -> (r: String)
        ensures
            r@ == match self {
                L10nLoadError::Io { message } => message@,
                L10nLoadError::Parse { message } => message@,
                L10nLoadError::DuplicateCommand { filename } => "duplicate command in "@ + filename@,
            },
    {
        match self {
            L10nLoadError::Io { message } => message.clone(),
            L10nLoadError::Parse { message } => message.clone(),
            L10nLoadError::DuplicateCommand { filename } => {
                let mut chars: Vec<char> = Vec::new();
                append_str(&mut chars, "duplicate command in ");
                append_str(&mut chars, filename.as_str());
                string_of(chars.as_slice())
            },
        }
    }
}

/// The message of an error.
pub open spec fn load_error_text(e: L10nLoadError) -> Seq<char> {
    match e {
        L10nLoadError::Io { message } => message@,
        L10nLoadError::Parse { message } => message@,
        L10nLoadError::DuplicateCommand { filename } => "duplicate command in "@ + filename@,
    }
}

/// The messages of the errors, each followed by a line break.
pub open spec fn load_errors_text(errors: Seq<L10nLoadError>) -> Seq<char>
    decreases errors.len(),
{
    if errors.len() == 0 {
        Seq::empty()
    } else {
        load_errors_text(errors.drop_last()) + load_error_text(errors.last()) + seq!['\n']
    }
}

/// All errors met while loading translation files.
#[derive(Debug, PartialEq, Eq)]
pub struct L10nLoadErrors {
    pub errors: Vec<L10nLoadError>,
}

impl L10nLoadErrors {
    /// The messages of all errors, each on a line of its own.
    pub fn message(&self) -> (r: String)
        ensures
            r@ == load_errors_text(self.errors@),
    {
        let mut chars: Vec<char> = Vec::new();
        let mut i: usize = 0;
        while i < self.errors.len()
            invariant
                i <= self.errors@.len(),
                chars@ == load_errors_text(self.errors@.subrange(0, i as int)),
            decreases self.errors@.len() - i,
        {
            let text = self.errors[i].message();
            append_str(&mut chars, text.as_str());
            chars.push('\n');
            i += 1;
            assert(self.errors@.subrange(0, i as int).drop_last() =~= self.errors@.subrange(0, i - 1));
        }
        assert(self.errors@.subrange(0, i as int) =~= self.errors@);
        string_of(chars.as_slice())
    }
}

/// Adds the commands `cmds` of file `filename` to `acc`; a command that `acc`
/// already has is an error instead.
pub open spec fn merge_file_spec(
    acc: Seq<(String, CommandTranslations)>,
    errors: Seq<L10nLoadError>,
    filename: String,
    cmds: Seq<(String, CommandTranslations)>,
) -> (Seq<(String, CommandTranslations)>, Seq<L10nLoadError>)
    decreases cmds.len(),
{
    if cmds.len() == 0 {
        (acc, errors)
    } else if has_key(acc, cmds[0].0@) {
        merge_file_spec(
            acc,
            errors.push(L10nLoadError::DuplicateCommand { filename: filename }),
            filename,
            cmds.drop_first(),
        )
    } else {
        merge_file_spec(acc.push(cmds[0]), errors, filename, cmds.drop_first())
    }
}

/// Adds the loaded files `files`, in order, to `acc`; a file that could not
/// be loaded adds its error.
pub open spec fn merge_files_spec(
    acc: Seq<(String, CommandTranslations)>,
    errors: Seq<L10nLoadError>,
    files: Seq<(String, Result<TranslatedCommands, L10nLoadError>)>,
) -> (Seq<(String, CommandTranslations)>, Seq<L10nLoadError>)
    decreases files.len(),
{
    if files.len() == 0 {
        (acc, errors)
    } else {
        let (acc2, errors2) = match files[0].1 {
            Ok(t) => merge_file_spec(acc, errors, files[0].0, t.commands@),
            Err(e) => (acc, errors.push(e)),
        };
        merge_files_spec(acc2, errors2, files.drop_first())
    }
}

impl TranslatedCommands {
    /// The translations of the loaded files `loaded`, each given with its
    /// file name: the commands of all files, unless a file could not be
    /// loaded or translates a command that an earlier file translated; then
    /// all such errors, in order.
    pub fn from_loaded(loaded: Vec<(String, Result<TranslatedCommands, L10nLoadError>)>) -> (r: Result<
        TranslatedCommands,
        L10nLoadErrors,
    >)
        ensures
            ({
                let (acc, errors) = merge_files_spec(Seq::empty(), Seq::empty(), loaded@);
                match r {
                    Ok(t) => errors.len() == 0 && t.commands@ == acc,
                    Err(e) => errors.len() > 0 && e.errors@ == errors,
                }
            }),
    {
        let ghost goal = merge_files_spec(Seq::empty(), Seq::empty(), loaded@);
        let mut acc = TranslatedCommands::new();
        let mut errors: Vec<L10nLoadError> = Vec::new();
        let mut files = loaded;
        assert(acc.commands@ =~= Seq::<(String, CommandTranslations)>::empty());
        while files.len() > 0
            invariant
                goal == merge_files_spec(acc.commands@, errors@, files@),
            decreases files.len(),
        {
            let ghost old_files = files@;
            let (filename, result) = files.remove(0);
            assert(files@ =~= old_files.drop_first());
            match result {
                Ok(translations) => {
                    let ghost file_goal = merge_file_spec(acc.commands@, errors@, filename, translations.commands@);
                    let mut cmds = translations.commands;
                    while cmds.len() > 0
                        invariant
                            file_goal == merge_file_spec(acc.commands@, errors@, filename, cmds@),
                        decreases cmds.len(),
                    {
                        let ghost old_cmds = cmds@;
                        let (command_name, translation) = cmds.remove(0);
                        assert(cmds@ =~= old_cmds.drop_first());
                        match find_key(&acc.commands, command_name.as_str()) {
                            Some(_) => {
                                errors.push(L10nLoadError::DuplicateCommand { filename: filename.clone() });
                            },
                            None => {
                                acc.commands.push((command_name, translation));
                            },
                        }
                    }
                },
                Err(error) => {
                    errors.push(error);
                },
            }
        }
        if errors.len() == 0 {
            Ok(acc)
        } else {
            Err(L10nLoadErrors { errors })
        }
    }
}

/// Merging a file keeps the names already there, adds each of its names,
/// and keeps the names distinct.
proof fn lemma_merge_file(
    acc: Seq<(String, CommandTranslations)>,
    errors: Seq<L10nLoadError>,
    filename: String,
    cmds: Seq<(String, CommandTranslations)>,
)
    requires
        keys_unique(acc),
    ensures
        ({
            let (acc2, _) = merge_file_spec(acc, errors, filename, cmds);
            &&& keys_unique(acc2)
            &&& forall|k: Seq<char>| has_key(acc, k) ==> #[trigger] has_key(acc2, k)
            &&& forall|j: int| 0 <= j < cmds.len() ==> has_key(acc2, #[trigger] cmds[j].0@)
        }),
    decreases cmds.len(),
{
    if cmds.len() > 0 {
        let next = if has_key(acc, cmds[0].0@) {
            acc
        } else {
            lemma_keys_unique_push(acc, cmds[0]);
            acc.push(cmds[0])
        };
        let next_errors = if has_key(acc, cmds[0].0@) {
            errors.push(L10nLoadError::DuplicateCommand { filename: filename })
        } else {
            errors
        };
        assert forall|k: Seq<char>| has_key(acc, k) implies #[trigger] has_key(next, k) by {
            let i = choose|i: int| 0 <= i < acc.len() && #[trigger] acc[i].0@ == k;
            assert(next[i] == acc[i]);
        }
        assert(has_key(next, cmds[0].0@)) by {
            if !has_key(acc, cmds[0].0@) {
                assert(next[acc.len() as int].0@ == cmds[0].0@);
            }
        }
        lemma_merge_file(next, next_errors, filename, cmds.drop_first());
        let (acc2, _) = merge_file_spec(acc, errors, filename, cmds);
        assert forall|j: int| 0 <= j < cmds.len() implies has_key(acc2, #[trigger] cmds[j].0@) by {
            if j > 0 {
                assert(cmds.drop_first()[j - 1] == cmds[j]);
            }
        }
    }
}

/// Merging files keeps the names distinct, and the result has each name of
/// each file that could be loaded.
proof fn lemma_merge_files(
    acc: Seq<(String, CommandTranslations)>,
    errors: Seq<L10nLoadError>,
    files: Seq<(String, Result<TranslatedCommands, L10nLoadError>)>,
)
    requires
        keys_unique(acc),
    ensures
        ({
            let (acc2, _) = merge_files_spec(acc, errors, files);
            &&& keys_unique(acc2)
            &&& forall|k: Seq<char>| has_key(acc, k) ==> #[trigger] has_key(acc2, k)
            &&& forall|f: int, j: int|
                0 <= f < files.len() && files[f].1 is Ok && 0 <= j < files[f].1->Ok_0.commands@.len()
                    ==> has_key(acc2, #[trigger] files[f].1->Ok_0.commands@[j].0@)
        }),
    decreases files.len(),
{
    if files.len() > 0 {
        let (next, next_errors) = match files[0].1 {
            Ok(t) => merge_file_spec(acc, errors, files[0].0, t.commands@),
            Err(e) => (acc, errors.push(e)),
        };
        if let Ok(t) = files[0].1 {
            lemma_merge_file(acc, errors, files[0].0, t.commands@);
        }
        lemma_merge_files(next, next_errors, files.drop_first());
        let (acc2, _) = merge_files_spec(acc, errors, files);
        assert forall|f: int, j: int|
            0 <= f < files.len() && files[f].1 is Ok && 0 <= j < files[f].1->Ok_0.commands@.len()
            implies has_key(acc2, #[trigger] files[f].1->Ok_0.commands@[j].0@) by {
            if f > 0 {
                assert(files.drop_first()[f - 1] == files[f]);
            } else {
                assert(has_key(next, files[0].1->Ok_0.commands@[j].0@));
            }
        }
    }
}

/// Whatever the loaded files hold, the merged translations name each command
/// once, and name every command of every file that could be loaded.
pub proof fn lemma_loaded_commands(files: Seq<(String, Result<TranslatedCommands, L10nLoadError>)>)
    ensures
        ({
            let (acc, _) = merge_files_spec(Seq::empty(), Seq::empty(), files);
            &&& keys_unique(acc)
            &&& forall|f: int, j: int|
                0 <= f < files.len() && files[f].1 is Ok && 0 <= j < files[f].1->Ok_0.commands@.len()
                    ==> has_key(acc, #[trigger] files[f].1->Ok_0.commands@[j].0@)
        }),
{
    lemma_merge_files(Seq::empty(), Seq::empty(), files);
}


/// A module that may come with a file of translations for its commands.
pub trait CommandL10nProvider {
    /// The path of the translation file, if there is one; none by default.
    fn l10n_path(&self) -> (r: Option<&'static str>)
        default_ensures
            r is None,
    {
        None
    }
}

} // verus!
