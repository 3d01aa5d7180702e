//! Command paths and the map from paths to commands, built by merging.

use vstd::prelude::*;

use crate::text::{append_str, string_of};
use crate::assoc::{
    find_key, has_key, lemma_seq_key_pos, lemma_seq_keys_distinct_push,
    lemma_seq_keys_distinct_update, seq_get, seq_has_key, seq_key_pos, seq_keys_distinct,
};

verus! {

/// The path of a command: a top-level command, a subcommand, or a
/// subcommand within a group.
#[derive(Clone, Debug, PartialEq, Eq, Hash)]
pub enum CommandPath {
    Command { name: String },
    Subcommand { name: String, subcommand: String },
    Grouped { name: String, group: String, subcommand: String },
}

/// A command path as plain character sequences.
pub enum PathView {
    Command(Seq<char>),
    Subcommand(Seq<char>, Seq<char>),
    Grouped(Seq<char>, Seq<char>, Seq<char>),
}

impl View for CommandPath {
    type V = PathView;

    open spec fn view(&self) -> PathView {
        match self {
            CommandPath::Command { name } => PathView::Command(name@),
            CommandPath::Subcommand { name, subcommand } => PathView::Subcommand(name@, subcommand@),
            CommandPath::Grouped { name, group, subcommand } => PathView::Grouped(
                name@,
                group@,
                subcommand@,
            ),
        }
    }
}

/// The top-level name of a path.
pub open spec fn path_name(p: PathView) -> Seq<char> {
    match p {
        PathView::Command(n) => n,
        PathView::Subcommand(n, _) => n,
        PathView::Grouped(n, _, _) => n,
    }
}

impl CommandPath {
    /// The top-level command name of this path.
    pub fn name(&self) -> (r: &str)
        ensures
            r@ == path_name(self@),
    {
        match self {
            CommandPath::Command { name } => name.as_str(),
            CommandPath::Subcommand { name, .. } => name.as_str(),
            CommandPath::Grouped { name, .. } => name.as_str(),
        }
    }
}

/// The text of a path: its names, separated by spaces.
pub open spec fn path_text(p: PathView) -> Seq<char> {
    match p {
        PathView::Command(n) => n,
        PathView::Subcommand(n, s) => n + seq![' '] + s,
        PathView::Grouped(n, g, s) => n + seq![' '] + g + seq![' '] + s,
    }
}

impl CommandPath {
    /// The text of this path, as a user types it after the slash.
    pub fn to_text(&self) -> (r: String)
        ensures
            r@ == path_text(self@),
    {
        let mut chars: Vec<char> = Vec::new();
        match self {
            CommandPath::Command { name } => {
                append_str(&mut chars, name.as_str());
            },
            CommandPath::Subcommand { name, subcommand } => {
                append_str(&mut chars, name.as_str());
                chars.push(' ');
                append_str(&mut chars, subcommand.as_str());
            },
            CommandPath::Grouped { name, group, subcommand } => {
                append_str(&mut chars, name.as_str());
                chars.push(' ');
                append_str(&mut chars, group.as_str());
                chars.push(' ');
                append_str(&mut chars, subcommand.as_str());
            },
        }
        string_of(chars.as_slice())
    }
}

/// Why two command maps could not be merged.
#[derive(Debug)]
pub enum CommandMapMergeError {
    /// Two commands have the same path.
    DuplicateCommand { path: CommandPath },
    /// A path names a command and also has subcommands.
    AmbiguousSubcommand { path: CommandPath },
}

impl CommandMapMergeError {
    /// The message of this error.
    pub fn message(&self) -> (r: String)
        ensures
            r@ == match self@ {
                MergeErrorView::Duplicate(p) => "duplicate command `/"@ + path_text(p) + "`"@,
                MergeErrorView::Ambiguous(p) => "command `/"@ + path_text(p) + "` cannot also have subcommands"@,
            },
    {
        let mut chars: Vec<char> = Vec::new();
        match self {
            CommandMapMergeError::DuplicateCommand { path } => {
                append_str(&mut chars, "duplicate command `/");
                let text = path.to_text();
                append_str(&mut chars, text.as_str());
                append_str(&mut chars, "`");
            },
            CommandMapMergeError::AmbiguousSubcommand { path } => {
                append_str(&mut chars, "command `/");
                let text = path.to_text();
                append_str(&mut chars, text.as_str());
                append_str(&mut chars, "` cannot also have subcommands");
            },
        }
        string_of(chars.as_slice())
    }
}

/// A merge error as plain values.
pub enum MergeErrorView {
    Duplicate(PathView),
    Ambiguous(PathView),
}

impl View for CommandMapMergeError {
    type V = MergeErrorView;

    open spec fn view(&self) -> MergeErrorView {
        match self {
            CommandMapMergeError::DuplicateCommand { path } => MergeErrorView::Duplicate(path@),
            CommandMapMergeError::AmbiguousSubcommand { path } => MergeErrorView::Ambiguous(path@),
        }
    }
}

/// An entry of a subcommand map as plain values.
pub enum SubEntryView<C> {
    Subcommand(C),
    Group(Seq<(Seq<char>, C)>),
}

/// An entry of a command map as plain values.
pub enum EntryView<C> {
    Command(C),
    Subcommands(Seq<(Seq<char>, SubEntryView<C>)>),
}

/// The commands of a group, by subcommand name.
#[derive(Debug)]
pub struct SubcommandGroupMap<C> {
    entries: Vec<(String, C)>,
}

/// An entry of a subcommand map: a subcommand or a group of subcommands.
#[derive(Debug)]
pub enum SubcommandMapEntry<C> {
    Subcommand(C),
    Group(SubcommandGroupMap<C>),
}

/// The subcommands and groups of a command, by name.
#[derive(Debug)]
pub struct SubcommandMap<C> {
    entries: Vec<(String, SubcommandMapEntry<C>)>,
}

/// An entry of a command map: a command or its subcommands.
#[derive(Debug)]
pub enum CommandMapEntry<C> {
    Command(C),
    Subcommands(SubcommandMap<C>),
}

/// All commands of a bot, by top-level name.
#[derive(Debug)]
pub struct CommandMap<C> {
    entries: Vec<(String, CommandMapEntry<C>)>,
}

/// The plain view of the entries of a group.
pub open spec fn group_view<C>(v: Seq<(String, C)>) -> Seq<(Seq<char>, C)> {
    v.map_values(|e: (String, C)| (e.0@, e.1))
}

/// The plain view of the entries of a subcommand map.
pub open spec fn subs_view<C>(v: Seq<(String, SubcommandMapEntry<C>)>) -> Seq<(Seq<char>, SubEntryView<C>)> {
    v.map_values(|e: (String, SubcommandMapEntry<C>)| (e.0@, e.1@))
}

/// The plain view of the entries of a command map.
pub open spec fn map_view<C>(v: Seq<(String, CommandMapEntry<C>)>) -> Seq<(Seq<char>, EntryView<C>)> {
    v.map_values(|e: (String, CommandMapEntry<C>)| (e.0@, e.1@))
}

impl<C> View for SubcommandGroupMap<C> {
    type V = Seq<(Seq<char>, C)>;

    closed spec fn view(&self) -> Seq<(Seq<char>, C)> {
        group_view(self.entries@)
    }
}

impl<C> View for SubcommandMapEntry<C> {
    type V = SubEntryView<C>;

    open spec fn view(&self) -> SubEntryView<C> {
        match self {
            SubcommandMapEntry::Subcommand(c) => SubEntryView::Subcommand(*c),
            SubcommandMapEntry::Group(g) => SubEntryView::Group(g@),
        }
    }
}

impl<C> View for SubcommandMap<C> {
    type V = Seq<(Seq<char>, SubEntryView<C>)>;

    closed spec fn view(&self) -> Seq<(Seq<char>, SubEntryView<C>)> {
        subs_view(self.entries@)
    }
}

impl<C> View for CommandMapEntry<C> {
    type V = EntryView<C>;

    open spec fn view(&self) -> EntryView<C> {
        match self {
            CommandMapEntry::Command(c) => EntryView::Command(*c),
            CommandMapEntry::Subcommands(s) => EntryView::Subcommands(s@),
        }
    }
}

impl<C> View for CommandMap<C> {
    type V = Seq<(Seq<char>, EntryView<C>)>;

    closed spec fn view(&self) -> Seq<(Seq<char>, EntryView<C>)> {
        map_view(self.entries@)
    }
}

// ---------------------------------------------------------------------------
// Well-formedness: names are distinct at every level.

pub open spec fn wf_sub_entry<C>(e: SubEntryView<C>) -> bool {
    match e {
        SubEntryView::Subcommand(_) => true,
        SubEntryView::Group(g) => seq_keys_distinct(g),
    }
}

pub open spec fn wf_subs<C>(s: Seq<(Seq<char>, SubEntryView<C>)>) -> bool {
    &&& seq_keys_distinct(s)
    &&& forall|i: int| 0 <= i < s.len() ==> wf_sub_entry(#[trigger] s[i].1)
}

pub open spec fn wf_entry<C>(e: EntryView<C>) -> bool {
    match e {
        EntryView::Command(_) => true,
        EntryView::Subcommands(s) => wf_subs(s),
    }
}

pub open spec fn wf_map<C>(m: Seq<(Seq<char>, EntryView<C>)>) -> bool {
    &&& seq_keys_distinct(m)
    &&& forall|i: int| 0 <= i < m.len() ==> wf_entry(#[trigger] m[i].1)
}

// ---------------------------------------------------------------------------
// What merging does, stated over plain values.

/// Adds the commands `new` of group `group` of command `name` to the group `cur`.
pub open spec fn merge_group_spec<C>(
    cur: Seq<(Seq<char>, C)>,
    name: Seq<char>,
    group: Seq<char>,
    new: Seq<(Seq<char>, C)>,
) -> Result<Seq<(Seq<char>, C)>, MergeErrorView>
    decreases new.len(),
{
    if new.len() == 0 {
        Ok(cur)
    } else if seq_has_key(cur, new[0].0) {
        Err(MergeErrorView::Duplicate(PathView::Grouped(name, group, new[0].0)))
    } else {
        merge_group_spec(cur.push(new[0]), name, group, new.drop_first())
    }
}

/// Merges the entry `new` into the entry `cur` of subcommand `sub` of command `name`.
pub open spec fn merge_sub_entry_spec<C>(
    cur: SubEntryView<C>,
    name: Seq<char>,
    sub: Seq<char>,
    new: SubEntryView<C>,
) -> Result<SubEntryView<C>, MergeErrorView> {
    match (cur, new) {
        (SubEntryView::Subcommand(_), SubEntryView::Subcommand(_)) => Err(
            MergeErrorView::Duplicate(PathView::Subcommand(name, sub)),
        ),
        (SubEntryView::Group(g), SubEntryView::Group(ng)) => match merge_group_spec(
            g,
            name,
            sub,
            ng,
        ) {
            Ok(m) => Ok(SubEntryView::Group(m)),
            Err(e) => Err(e),
        },
        _ => Err(MergeErrorView::Ambiguous(PathView::Subcommand(name, sub))),
    }
}

/// Merges the subcommands `new` of command `name` into the subcommands `cur`.
pub open spec fn merge_subs_spec<C>(
    cur: Seq<(Seq<char>, SubEntryView<C>)>,
    name: Seq<char>,
    new: Seq<(Seq<char>, SubEntryView<C>)>,
) -> Result<Seq<(Seq<char>, SubEntryView<C>)>, MergeErrorView>
    decreases new.len(),
{
    if new.len() == 0 {
        Ok(cur)
    } else if seq_has_key(cur, new[0].0) {
        let i = seq_key_pos(cur, new[0].0);
        match merge_sub_entry_spec(cur[i].1, name, new[0].0, new[0].1) {
            Ok(e) => merge_subs_spec(cur.update(i, (new[0].0, e)), name, new.drop_first()),
            Err(e) => Err(e),
        }
    } else {
        merge_subs_spec(cur.push(new[0]), name, new.drop_first())
    }
}

/// Merges the entry `new` into the entry `cur` of command `name`.
pub open spec fn merge_entry_spec<C>(cur: EntryView<C>, name: Seq<char>, new: EntryView<C>) -> Result<
    EntryView<C>,
    MergeErrorView,
> {
    match (cur, new) {
        (EntryView::Command(_), EntryView::Command(_)) => Err(
            MergeErrorView::Duplicate(PathView::Command(name)),
        ),
        (EntryView::Subcommands(s), EntryView::Subcommands(ns)) => match merge_subs_spec(
            s,
            name,
            ns,
        ) {
            Ok(m) => Ok(EntryView::Subcommands(m)),
            Err(e) => Err(e),
        },
        _ => Err(MergeErrorView::Ambiguous(PathView::Command(name))),
    }
}

/// Adds the entry `e` for command `name` to the map `m`.
pub open spec fn add_entry_spec<C>(
    m: Seq<(Seq<char>, EntryView<C>)>,
    name: Seq<char>,
    e: EntryView<C>,
) -> Result<Seq<(Seq<char>, EntryView<C>)>, MergeErrorView> {
    if seq_has_key(m, name) {
        let i = seq_key_pos(m, name);
        match merge_entry_spec(m[i].1, name, e) {
            Ok(e2) => Ok(m.update(i, (name, e2))),
            Err(x) => Err(x),
        }
    } else {
        Ok(m.push((name, e)))
    }
}

/// Adds the entries `es`, in order, to the map `m`.
pub open spec fn merge_entries_spec<C>(
    m: Seq<(Seq<char>, EntryView<C>)>,
    es: Seq<(Seq<char>, EntryView<C>)>,
) -> Result<Seq<(Seq<char>, EntryView<C>)>, MergeErrorView>
    decreases es.len(),
{
    if es.len() == 0 {
        Ok(m)
    } else {
        match add_entry_spec(m, es[0].0, es[0].1) {
            Ok(m2) => merge_entries_spec(m2, es.drop_first()),
            Err(x) => Err(x),
        }
    }
}

/// The single-command entry that a path and its command stand for.
pub open spec fn path_entry<C>(p: PathView, c: C) -> (Seq<char>, EntryView<C>) {
    match p {
        PathView::Command(n) => (n, EntryView::Command(c)),
        PathView::Subcommand(n, s) => (
            n,
            EntryView::Subcommands(seq![(s, SubEntryView::Subcommand(c))]),
        ),
        PathView::Grouped(n, g, s) => (
            n,
            EntryView::Subcommands(seq![(g, SubEntryView::Group(seq![(s, c)]))]),
        ),
    }
}

/// The entries that a list of paths and commands stands for.
pub open spec fn path_entries<C>(list: Seq<(PathView, C)>) -> Seq<(Seq<char>, EntryView<C>)> {
    list.map_values(|pc: (PathView, C)| path_entry(pc.0, pc.1))
}

/// The subcommand or group name under which a path lies (empty for a command).
pub open spec fn path_sub_key(p: PathView) -> Seq<char> {
    match p {
        PathView::Command(_) => Seq::empty(),
        PathView::Subcommand(_, s) => s,
        PathView::Grouped(_, g, _) => g,
    }
}

/// The command found at path `p` within the subcommand entry `e` of its key.
pub open spec fn sub_entry_lookup<C>(e: SubEntryView<C>, p: PathView) -> Option<C> {
    match (p, e) {
        (PathView::Subcommand(_, _), SubEntryView::Subcommand(c)) => Some(c),
        (PathView::Grouped(_, _, s), SubEntryView::Group(gm)) => seq_get(gm, s),
        _ => None,
    }
}

/// The command found at path `p` within the entry `e` of its top-level name.
pub open spec fn entry_lookup<C>(e: EntryView<C>, p: PathView) -> Option<C> {
    match e {
        EntryView::Command(c) => match p {
            PathView::Command(_) => Some(c),
            _ => None,
        },
        EntryView::Subcommands(sm) => match p {
            PathView::Command(_) => None,
            _ => match seq_get(sm, path_sub_key(p)) {
                Some(se) => sub_entry_lookup(se, p),
                None => None,
            },
        },
    }
}

/// The command found at path `p` in the map `m`, if any.
pub open spec fn lookup<C>(m: Seq<(Seq<char>, EntryView<C>)>, p: PathView) -> Option<C> {
    match seq_get(m, path_name(p)) {
        Some(e) => entry_lookup(e, p),
        None => None,
    }
}


// ---------------------------------------------------------------------------
// Building and searching the maps.

/// The key positions of a vector of named entries and of its plain view agree.
proof fn lemma_view_keys<X, Y>(v: Seq<(String, X)>, w: Seq<(Seq<char>, Y)>, k: Seq<char>)
    requires
        v.len() == w.len(),
        forall|i: int| 0 <= i < v.len() ==> #[trigger] w[i].0 == v[i].0@,
    ensures
        has_key(v, k) <==> seq_has_key(w, k),
{
    if has_key(v, k) {
        let i = choose|i: int| 0 <= i < v.len() && #[trigger] v[i].0@ == k;
        assert(w[i].0 == k);
    }
    if seq_has_key(w, k) {
        let i = choose|i: int| 0 <= i < w.len() && #[trigger] w[i].0 == k;
        assert(v[i].0@ == k);
    }
}

impl<C> SubcommandGroupMap<C> {
    #[verifier::type_invariant]
    spec fn group_wf(self) -> bool {
        seq_keys_distinct(group_view(self.entries@))
    }

    /// Adds the commands of `other` to this group `group` of command `name`.
    fn merge(self, name: &String, group: &String, other: SubcommandGroupMap<C>) -> (r: Result<
        SubcommandGroupMap<C>,
        CommandMapMergeError,
    >)
        ensures
            match merge_group_spec(self@, name@, group@, other@) {
                Ok(m) => r matches Ok(g) && g@ == m,
                Err(e) => r matches Err(x) && x@ == e,
            },
            r matches Ok(g) ==> seq_keys_distinct(g@),
    {
        proof {
            use_type_invariant(&self);
        }
        let ghost want = merge_group_spec(self@, name@, group@, other@);
        let mut cur = self.entries;
        let mut rest = other.entries;
        while rest.len() > 0
            invariant
                seq_keys_distinct(group_view(cur@)),
                merge_group_spec(group_view(cur@), name@, group@, group_view(rest@)) == want,
                want == merge_group_spec(self@, name@, group@, other@),
            decreases rest@.len(),
        {
            let ghost before = group_view(rest@);
            let ghost cur_before = group_view(cur@);
            let (sub, c) = rest.remove(0);
            assert(group_view(rest@) =~= before.drop_first());
            assert(before[0] == (sub@, c));
            proof {
                lemma_view_keys(cur@, cur_before, sub@);
            }
            match find_key(&cur, sub.as_str()) {
                Some(i) => {
                    assert(cur_before[i as int].0 == sub@);
                    assert(seq_has_key(cur_before, before[0].0));
                    let err = CommandMapMergeError::DuplicateCommand {
                        path: CommandPath::Grouped {
                            name: name.clone(),
                            group: group.clone(),
                            subcommand: sub,
                        },
                    };
                    assert(err@ == MergeErrorView::Duplicate(PathView::Grouped(name@, group@, before[0].0)));
                    assert(want == Err::<Seq<(Seq<char>, C)>, MergeErrorView>(err@));
                    return Err(err);
                },
                None => {
                    proof {
                        lemma_seq_keys_distinct_push(cur_before, (sub@, c));
                    }
                    cur.push((sub, c));
                    assert(group_view(cur@) =~= cur_before.push(before[0]));
                },
            }
        }
        Ok(SubcommandGroupMap { entries: cur })
    }
}

impl<C> SubcommandMapEntry<C> {
    /// Merges the entry `other` into this entry of subcommand `sub` of command `name`.
    fn merge(self, name: &String, sub: String, other: SubcommandMapEntry<C>) -> (r: Result<
        SubcommandMapEntry<C>,
        CommandMapMergeError,
    >)
        ensures
            match merge_sub_entry_spec(self@, name@, sub@, other@) {
                Ok(m) => r matches Ok(e) && e@ == m,
                Err(e) => r matches Err(x) && x@ == e,
            },
            r matches Ok(e) ==> wf_sub_entry(e@),
    {
        match (self, other) {
            (SubcommandMapEntry::Subcommand(_), SubcommandMapEntry::Subcommand(_)) => Err(
                CommandMapMergeError::DuplicateCommand {
                    path: CommandPath::Subcommand { name: name.clone(), subcommand: sub },
                },
            ),
            (SubcommandMapEntry::Group(g), SubcommandMapEntry::Group(ng)) => {
                match g.merge(name, &sub, ng) {
                    Ok(m) => Ok(SubcommandMapEntry::Group(m)),
                    Err(e) => Err(e),
                }
            },
            _ => Err(
                CommandMapMergeError::AmbiguousSubcommand {
                    path: CommandPath::Subcommand { name: name.clone(), subcommand: sub },
                },
            ),
        }
    }

}

impl<C> SubcommandMap<C> {
    #[verifier::type_invariant]
    spec fn subs_wf(self) -> bool {
        wf_subs(subs_view(self.entries@))
    }

    /// Merges the subcommands of `other` into these subcommands of command `name`.
    fn merge(self, name: &String, other: SubcommandMap<C>) -> (r: Result<
        SubcommandMap<C>,
        CommandMapMergeError,
    >)
        ensures
            match merge_subs_spec(self@, name@, other@) {
                Ok(m) => r matches Ok(s) && s@ == m,
                Err(e) => r matches Err(x) && x@ == e,
            },
            r matches Ok(s) ==> wf_subs(s@),
    {
        proof {
            use_type_invariant(&self);
            use_type_invariant(&other);
        }
        let ghost want = merge_subs_spec(self@, name@, other@);
        let mut cur = self.entries;
        let mut rest = other.entries;
        while rest.len() > 0
            invariant
                wf_subs(subs_view(cur@)),
                wf_subs(subs_view(rest@)),
                merge_subs_spec(subs_view(cur@), name@, subs_view(rest@)) == want,
                want == merge_subs_spec(self@, name@, other@),
            decreases rest@.len(),
        {
            let ghost before = subs_view(rest@);
            let ghost cur_before = subs_view(cur@);
            let (sub, e) = rest.remove(0);
            assert(subs_view(rest@) =~= before.drop_first());
            assert(before[0] == (sub@, e@));
            assert(wf_sub_entry(before[0].1));
            assert forall|a: int, b: int|
                0 <= a < subs_view(rest@).len() && 0 <= b < subs_view(rest@).len() && a != b
                implies #[trigger] subs_view(rest@)[a].0 != #[trigger] subs_view(rest@)[b].0 by {
                assert(subs_view(rest@)[a] == before[a + 1]);
                assert(subs_view(rest@)[b] == before[b + 1]);
            }
            assert forall|a: int| 0 <= a < subs_view(rest@).len() implies wf_sub_entry(
                #[trigger] subs_view(rest@)[a].1,
            ) by {
                assert(subs_view(rest@)[a] == before[a + 1]);
            }
            proof {
                lemma_view_keys(cur@, cur_before, sub@);
            }
            match find_key(&cur, sub.as_str()) {
                Some(i) => {
                    assert(cur_before[i as int].0 == sub@);
                    proof {
                        lemma_seq_key_pos(cur_before, i as int);
                    }
                    let (key, old_entry) = cur.remove(i);
                    assert(cur_before[i as int].1 == old_entry@);
                    let merged = old_entry.merge(name, sub, e);
                    match merged {
                        Ok(m) => {
                            proof {
                                lemma_seq_keys_distinct_update(cur_before, i as int, (key@, m@));
                            }
                            cur.insert(i, (key, m));
                            assert(subs_view(cur@) =~= cur_before.update(i as int, (before[0].0, m@)));
                        },
                        Err(x) => {
                            assert(merge_subs_spec(cur_before, name@, before) == Err::<
                                Seq<(Seq<char>, SubEntryView<C>)>,
                                MergeErrorView,
                            >(x@));
                            return Err(x);
                        },
                    }
                },
                None => {
                    proof {
                        lemma_seq_keys_distinct_push(cur_before, (sub@, e@));
                    }
                    cur.push((sub, e));
                    assert(subs_view(cur@) =~= cur_before.push(before[0]));
                },
            }
        }
        Ok(SubcommandMap { entries: cur })
    }
}

impl<C> CommandMapEntry<C> {
    /// The name under which a command at `path` is entered, and its entry.
    fn name_and_new(path: CommandPath, command: C) -> (r: (String, CommandMapEntry<C>))
        ensures
            (r.0@, r.1@) == path_entry(path@, command),
    {
        match path {
            CommandPath::Command { name } => (name, CommandMapEntry::Command(command)),
            CommandPath::Subcommand { name, subcommand } => {
                let entries = vec![(subcommand, SubcommandMapEntry::Subcommand(command))];
                assert(subs_view(entries@) =~= seq![(entries@[0].0@, entries@[0].1@)]);
                (name, CommandMapEntry::Subcommands(SubcommandMap { entries }))
            },
            CommandPath::Grouped { name, group, subcommand } => {
                let inner = vec![(subcommand, command)];
                assert(group_view(inner@) =~= seq![(inner@[0].0@, inner@[0].1)]);
                let g = SubcommandGroupMap { entries: inner };
                let entries = vec![(group, SubcommandMapEntry::Group(g))];
                assert(subs_view(entries@) =~= seq![(entries@[0].0@, entries@[0].1@)]);
                (name, CommandMapEntry::Subcommands(SubcommandMap { entries }))
            },
        }
    }

    /// Merges the entry `other` into this entry of command `name`.
    fn merge(self, name: String, other: CommandMapEntry<C>) -> (r: Result<
        CommandMapEntry<C>,
        CommandMapMergeError,
    >)
        ensures
            match merge_entry_spec(self@, name@, other@) {
                Ok(m) => r matches Ok(e) && e@ == m,
                Err(e) => r matches Err(x) && x@ == e,
            },
            r matches Ok(e) ==> wf_entry(e@),
    {
        match (self, other) {
            (CommandMapEntry::Command(_), CommandMapEntry::Command(_)) => Err(
                CommandMapMergeError::DuplicateCommand { path: CommandPath::Command { name } },
            ),
            (CommandMapEntry::Subcommands(s), CommandMapEntry::Subcommands(ns)) => {
                match s.merge(&name, ns) {
                    Ok(m) => Ok(CommandMapEntry::Subcommands(m)),
                    Err(e) => Err(e),
                }
            },
            _ => Err(
                CommandMapMergeError::AmbiguousSubcommand { path: CommandPath::Command { name } },
            ),
        }
    }

}

impl<C> CommandMap<C> {
    #[verifier::type_invariant]
    spec fn map_wf(self) -> bool {
        wf_map(map_view(self.entries@))
    }

    /// The map without commands.
    pub fn empty() -> (r: CommandMap<C>)
        ensures
            r@ == Seq::<(Seq<char>, EntryView<C>)>::empty(),
    {
        let entries: Vec<(String, CommandMapEntry<C>)> = Vec::new();
        assert(map_view(entries@) =~= Seq::<(Seq<char>, EntryView<C>)>::empty());
        CommandMap { entries }
    }

    /// Adds the entry `entry` of command `name`, merging it with an entry of
    /// the same name.
    fn add_entry(self, name: String, entry: CommandMapEntry<C>) -> (r: Result<
        CommandMap<C>,
        CommandMapMergeError,
    >)
        requires
            wf_entry(entry@),
        ensures
            match add_entry_spec(self@, name@, entry@) {
                Ok(m) => r matches Ok(s) && s@ == m,
                Err(e) => r matches Err(x) && x@ == e,
            },
    {
        proof {
            use_type_invariant(&self);
        }
        let mut cur = self.entries;
        let ghost cur_before = map_view(cur@);
        proof {
            lemma_view_keys(cur@, cur_before, name@);
        }
        match find_key(&cur, name.as_str()) {
            Some(i) => {
                proof {
                    lemma_seq_key_pos(cur_before, i as int);
                }
                let (key, old_entry) = cur.remove(i);
                match old_entry.merge(name, entry) {
                    Ok(m) => {
                        proof {
                            lemma_seq_keys_distinct_update(cur_before, i as int, (key@, m@));
                        }
                        cur.insert(i, (key, m));
                        assert(map_view(cur@) =~= cur_before.update(i as int, (key@, m@)));
                        Ok(CommandMap { entries: cur })
                    },
                    Err(x) => Err(x),
                }
            },
            None => {
                proof {
                    lemma_seq_keys_distinct_push(cur_before, (name@, entry@));
                }
                cur.push((name, entry));
                assert(map_view(cur@) =~= cur_before.push((name@, entry@)));
                Ok(CommandMap { entries: cur })
            },
        }
    }

    /// Adds the entries, in order, merging each with an entry of the same name.
    fn merge_entries(self, entries: Vec<(String, CommandMapEntry<C>)>) -> (r: Result<
        CommandMap<C>,
        CommandMapMergeError,
    >)
        requires
            forall|i: int| 0 <= i < entries@.len() ==> wf_entry(#[trigger] map_view(entries@)[i].1),
        ensures
            match merge_entries_spec(self@, map_view(entries@)) {
                Ok(m) => r matches Ok(s) && s@ == m,
                Err(e) => r matches Err(x) && x@ == e,
            },
    {
        let ghost want = merge_entries_spec(self@, map_view(entries@));
        let mut map = self;
        let mut rest = entries;
        while rest.len() > 0
            invariant
                merge_entries_spec(map@, map_view(rest@)) == want,
                want == merge_entries_spec(self@, map_view(entries@)),
                forall|i: int| 0 <= i < rest@.len() ==> wf_entry(#[trigger] map_view(rest@)[i].1),
            decreases rest@.len(),
        {
            let ghost before = map_view(rest@);
            let (name, entry) = rest.remove(0);
            assert(map_view(rest@) =~= before.drop_first());
            assert(before[0] == (name@, entry@));
            assert(wf_entry(before[0].1));
            assert forall|i: int| 0 <= i < rest@.len() implies wf_entry(#[trigger] map_view(rest@)[i].1) by {
                assert(map_view(rest@)[i] == before[i + 1]);
            }
            let ghost map_before = map@;
            match map.add_entry(name, entry) {
                Ok(m) => {
                    map = m;
                },
                Err(x) => {
                    assert(merge_entries_spec(map_before, before) == Err::<
                        Seq<(Seq<char>, EntryView<C>)>,
                        MergeErrorView,
                    >(x@));
                    return Err(x);
                },
            }
        }
        Ok(map)
    }

    /// The map of the given commands, each at its path; fails where two paths
    /// clash.
    pub fn new(commands: Vec<(CommandPath, C)>) -> (r: Result<CommandMap<C>, CommandMapMergeError>)
        ensures
            match merge_entries_spec(
                Seq::empty(),
                path_entries(commands@.map_values(|pc: (CommandPath, C)| (pc.0@, pc.1))),
            ) {
                Ok(m) => r matches Ok(s) && s@ == m,
                Err(e) => r matches Err(x) && x@ == e,
            },
    {
        let ghost list = commands@.map_values(|pc: (CommandPath, C)| (pc.0@, pc.1));
        let mut entries: Vec<(String, CommandMapEntry<C>)> = Vec::new();
        let mut rest = commands;
        while rest.len() > 0
            invariant
                map_view(entries@) + path_entries(rest@.map_values(|pc: (CommandPath, C)| (pc.0@, pc.1)))
                    == path_entries(list),
                forall|i: int| 0 <= i < entries@.len() ==> wf_entry(#[trigger] map_view(entries@)[i].1),
            decreases rest@.len(),
        {
            let ghost rest_before = rest@.map_values(|pc: (CommandPath, C)| (pc.0@, pc.1));
            let ghost done = map_view(entries@);
            let (path, command) = rest.remove(0);
            let ghost pv = path@;
            let e = CommandMapEntry::name_and_new(path, command);
            entries.push(e);
            let ghost rest_after = rest@.map_values(|pc: (CommandPath, C)| (pc.0@, pc.1));
            assert(rest_after =~= rest_before.drop_first());
            assert(rest_before[0] == (pv, command));
            assert(path_entries(rest_before) =~= seq![path_entry(pv, command)] + path_entries(rest_after));
            assert(map_view(entries@) =~= done.push((e.0@, e.1@)));
            assert(wf_entry(path_entry(pv, command).1)) by {
                match pv {
                    PathView::Grouped(n, g, t) => {
                        let gm = seq![(t, command)];
                        assert(seq_keys_distinct(gm));
                        let sm = seq![(g, SubEntryView::Group(gm))];
                        assert(wf_sub_entry(sm[0].1));
                    },
                    _ => {},
                }
            }
        }
        assert(map_view(entries@) =~= path_entries(list));
        CommandMap::empty().merge_entries(entries)
    }

    /// Merges the commands of `other` into this map, in the order in which
    /// `other` holds them.
    pub fn merge(self, other: CommandMap<C>) -> (r: Result<CommandMap<C>, CommandMapMergeError>)
        ensures
            match merge_entries_spec(self@, other@) {
                Ok(m) => r matches Ok(s) && s@ == m,
                Err(e) => r matches Err(x) && x@ == e,
            },
            r matches Ok(s) ==> {
                &&& forall|p: PathView| #[trigger] lookup(self@, p) is Some ==> lookup(s@, p) == lookup(self@, p)
                &&& forall|p: PathView| #[trigger] lookup(other@, p) is Some ==> lookup(s@, p) == lookup(other@, p)
                &&& forall|p: PathView| #[trigger] lookup(s@, p) is Some ==> lookup(self@, p) is Some || lookup(
                    other@,
                    p,
                ) is Some
            },
    {
        proof {
            use_type_invariant(&self);
            use_type_invariant(&other);
            crate::command_laws::lemma_merge_keeps_every_path(self@, other@);
        }
        self.merge_entries(other.entries)
    }

    /// The command at `path`, if the map has one.
    pub fn find_command(&self, path: &CommandPath) -> (r: Option<&C>)
        ensures
            match lookup(self@, path@) {
                Some(c) => r matches Some(x) && *x == c,
                None => r is None,
            },
    {
        proof {
            use_type_invariant(self);
        }
        let ghost m = self@;
        proof {
            lemma_view_keys(self.entries@, m, path_name(path@));
        }
        let i = match find_key(&self.entries, path.name()) {
            Some(i) => i,
            None => {
                return None;
            },
        };
        proof {
            lemma_seq_key_pos(m, i as int);
        }
        let entry = &self.entries[i].1;
        assert(m[i as int].1 == entry@);
        match (path, entry) {
            (CommandPath::Command { .. }, CommandMapEntry::Command(c)) => Some(c),
            (CommandPath::Subcommand { subcommand: key, .. }, CommandMapEntry::Subcommands(sm))
            | (CommandPath::Grouped { group: key, .. }, CommandMapEntry::Subcommands(sm)) => {
                proof {
                    use_type_invariant(sm);
                    lemma_view_keys(sm.entries@, sm@, key@);
                }
                let k = match find_key(&sm.entries, key.as_str()) {
                    Some(k) => k,
                    None => {
                        return None;
                    },
                };
                proof {
                    lemma_seq_key_pos(sm@, k as int);
                }
                let sub_entry = &sm.entries[k].1;
                assert(sm@[k as int].1 == sub_entry@);
                match (path, sub_entry) {
                    (CommandPath::Subcommand { .. }, SubcommandMapEntry::Subcommand(c)) => Some(c),
                    (CommandPath::Grouped { subcommand, .. }, SubcommandMapEntry::Group(g)) => {
                        proof {
                            use_type_invariant(g);
                            lemma_view_keys(g.entries@, g@, subcommand@);
                        }
                        match find_key(&g.entries, subcommand.as_str()) {
                            Some(l) => {
                                proof {
                                    lemma_seq_key_pos(g@, l as int);
                                }
                                assert(g@[l as int].1 == g.entries@[l as int].1);
                                Some(&g.entries[l].1)
                            },
                            None => None,
                        }
                    },
                    _ => None,
                }
            },
            _ => None,
        }
    }
}


impl<C> SubcommandGroupMap<C> {
    /// The commands of this group, by subcommand name, in the order of entry.
    pub fn entries(&self) -> (r: &Vec<(String, C)>)
        ensures
            group_view(r@) == self@,
    {
        &self.entries
    }
}

impl<C> SubcommandMap<C> {
    /// The subcommands and groups, by name, in the order of entry.
    pub fn entries(&self) -> (r: &Vec<(String, SubcommandMapEntry<C>)>)
        ensures
            subs_view(r@) == self@,
    {
        &self.entries
    }
}

impl<C> CommandMap<C> {
    /// The commands, by top-level name, in the order of entry.
    pub fn entries(&self) -> (r: &Vec<(String, CommandMapEntry<C>)>)
        ensures
            map_view(r@) == self@,
    {
        &self.entries
    }
}

} // verus!
