//! The decisions of a running bot: how the modules' commands and custom ids
//! are combined, what application commands Discord is sent, where they are
//! registered, and what the bot reports.

use vstd::prelude::*;

use crate::command::{
    merge_entries_spec, group_view, map_view, subs_view, CommandMap, CommandMapEntry, CommandMapMergeError,
    EntryView, MergeErrorView, PathView, SubEntryView, SubcommandMapEntry,
};
use crate::command::{lookup, path_text, CommandPath};
use crate::custom_id::{custom_id_text, parse_custom_id, uuid_hyphenated, uuid_hyphenated_text, uuid_parse, CustomIdError};
use crate::l10n::{describes, path_last, CommandPathRef, Description, TranslatedCommands};
use crate::text::{append_str, decimal_text, string_of, u64_to_string, usize_to_string};

verus! {

/// Where the application commands are registered when the bot connects.
#[derive(Clone, Debug, PartialEq, Eq, Hash)]
pub enum ApplicationCommandUpdate {
    /// For all guilds.
    Global,
    /// For each guild that the bot is connected to.
    Connected,
    /// For the given guilds only, by guild id.
    Only(Vec<u64>),
}

impl ApplicationCommandUpdate {
    /// Registering globally.
    pub fn default_update() -> (r: ApplicationCommandUpdate)
        ensures
            r == ApplicationCommandUpdate::Global,
    {
        ApplicationCommandUpdate::Global
    }
}

// ---------------------------------------------------------------------------
// Combining the modules.

/// The command map of all modules: the empty map, merged with the map of
/// each module in turn.
pub open spec fn load_command_map_spec<C>(maps: Seq<Seq<(Seq<char>, EntryView<C>)>>) -> Result<
    Seq<(Seq<char>, EntryView<C>)>,
    MergeErrorView,
>
    decreases maps.len(),
{
    if maps.len() == 0 {
        Ok(Seq::empty())
    } else {
        match load_command_map_spec(maps.drop_last()) {
            Ok(m) => merge_entries_spec(m, maps.last()),
            Err(e) => Err(e),
        }
    }
}

/// Loading the modules' command maps keeps every command of every module:
/// where loading succeeds, each path at which some module's map finds a
/// command finds that command in the loaded map, and the loaded map finds a
/// command only at a path where some module's map does.
pub proof fn lemma_load_keeps_every_path<C>(maps: Seq<Seq<(Seq<char>, EntryView<C>)>>)
    requires
        forall|i: int| 0 <= i < maps.len() ==> crate::command::wf_map(#[trigger] maps[i]),
    ensures
        load_command_map_spec(maps) matches Ok(m) ==> {
            &&& crate::command::wf_map(m)
            &&& forall|i: int, p: PathView|
                0 <= i < maps.len() && (#[trigger] lookup(maps[i], p)) is Some ==> lookup(m, p) == lookup(maps[i], p)
            &&& forall|p: PathView| #[trigger] lookup(m, p) is Some ==> exists|i: int|
                0 <= i < maps.len() && lookup(maps[i], p) == lookup(m, p)
        },
    decreases maps.len(),
{
    if maps.len() > 0 {
        let prev = maps.drop_last();
        assert forall|i: int| 0 <= i < prev.len() implies crate::command::wf_map(#[trigger] prev[i]) by {
            assert(prev[i] == maps[i]);
        }
        lemma_load_keeps_every_path(prev);
        if let Ok(a) = load_command_map_spec(prev) {
            let b = maps.last();
            crate::command_laws::lemma_merge_keeps_every_path(a, b);
            if let Ok(m) = load_command_map_spec(maps) {
                assert forall|i: int, p: PathView|
                    0 <= i < maps.len() && (#[trigger] lookup(maps[i], p)) is Some implies lookup(m, p) == lookup(
                        maps[i],
                        p,
                    ) by {
                    if i < maps.len() - 1 {
                        assert(prev[i] == maps[i]);
                        assert(lookup(prev[i], p) is Some);
                        assert(lookup(a, p) == lookup(prev[i], p));
                    }
                }
                assert forall|p: PathView| #[trigger] lookup(m, p) is Some implies exists|i: int|
                    0 <= i < maps.len() && lookup(maps[i], p) == lookup(m, p) by {
                    if lookup(b, p) is Some {
                        assert(lookup(maps[maps.len() - 1], p) == lookup(m, p));
                    } else {
                        assert(lookup(a, p) is Some);
                        let i = choose|i: int| 0 <= i < prev.len() && lookup(prev[i], p) == lookup(a, p);
                        assert(prev[i] == maps[i]);
                        assert(lookup(maps[i], p) == lookup(m, p));
                    }
                }
            }
        }
    }
}

/// The plain views of command maps.
pub open spec fn maps_view<C>(maps: Seq<CommandMap<C>>) -> Seq<Seq<(Seq<char>, EntryView<C>)>> {
    maps.map_values(|m: CommandMap<C>| m@)
}

/// Merges the command maps of the modules, in the order of the modules.
pub fn load_command_map<C>(maps: Vec<CommandMap<C>>) -> (r: Result<CommandMap<C>, CommandMapMergeError>)
    ensures
        match load_command_map_spec(maps_view(maps@)) {
            Ok(m) => r matches Ok(x) && x@ == m,
            Err(e) => r matches Err(x) && x@ == e,
        },
{
    let ghost all = maps_view(maps@);
    let n = maps.len();
    let mut acc = CommandMap::empty();
    let mut rest = maps;
    let mut k: usize = 0;
    while rest.len() > 0
        invariant
            all == maps_view(maps@),
            n == all.len(),
            k + rest@.len() == n,
            maps_view(rest@) == all.skip(k as int),
            load_command_map_spec(all.take(k as int)) == Ok::<Seq<(Seq<char>, EntryView<C>)>, MergeErrorView>(acc@),
        decreases rest@.len(),
    {
        let ghost before = maps_view(rest@);
        let next = rest.remove(0);
        assert(before[0] == next@);
        assert(all[k as int] == next@);
        assert(maps_view(rest@) =~= before.drop_first());
        assert(before.drop_first() =~= all.skip(k + 1));
        assert(all.take(k + 1).drop_last() =~= all.take(k as int));
        assert(all.take(k + 1).last() == next@);
        match acc.merge(next) {
            Ok(m) => {
                acc = m;
            },
            Err(e) => {
                proof {
                    lemma_load_error_stays(all, k as int + 1);
                }
                return Err(e);
            },
        }
        k += 1;
    }
    assert(all.take(k as int) =~= all);
    Ok(acc)
}

/// Once merging fails, merging more maps fails with the same error.
proof fn lemma_load_error_stays<C>(all: Seq<Seq<(Seq<char>, EntryView<C>)>>, k: int)
    requires
        0 <= k <= all.len(),
        load_command_map_spec(all.take(k)) is Err,
    ensures
        load_command_map_spec(all) == load_command_map_spec(all.take(k)),
    decreases all.len() - k,
{
    if k < all.len() {
        assert(all.take(k + 1).drop_last() =~= all.take(k));
        lemma_load_error_stays(all, k + 1);
    } else {
        assert(all.take(k) =~= all);
    }
}

/// Why the custom ids of the modules could not be combined.
#[derive(Clone, Copy, Debug, PartialEq, Eq, Structural)]
pub struct DuplicateUuid {
    /// The uuid that two interactions or modals share.
    pub uuid: u128,
}

/// The uuids of all modules in order, each with its module's position.
pub open spec fn flat_uuids(modules: Seq<Seq<u128>>) -> Seq<(u128, int)>
    decreases modules.len(),
{
    if modules.len() == 0 {
        Seq::empty()
    } else {
        flat_uuids(modules.drop_last()) + modules.last().map_values(|u: u128| (u, modules.len() - 1))
    }
}

/// No uuid occurs twice in `s`.
pub open spec fn uuids_distinct(s: Seq<(u128, int)>) -> bool {
    forall|i: int, j: int| 0 <= i < j < s.len() ==> #[trigger] s[i].0 != #[trigger] s[j].0
}

/// The uuid at position `j` of `s` occurs before it, and no uuid before
/// position `j` occurs twice: it is the first repeated uuid.
pub open spec fn first_repeat(s: Seq<(u128, int)>, j: int) -> bool {
    &&& 0 <= j < s.len()
    &&& uuids_distinct(s.take(j))
    &&& exists|i: int| 0 <= i < j && #[trigger] s[i].0 == s[j].0
}

/// The plain view of the module uuids.
pub open spec fn uuid_lists(modules: Seq<Vec<u128>>) -> Seq<Seq<u128>> {
    modules.map_values(|v: Vec<u128>| v@)
}

/// Maps each uuid that a module handles, its interactions' and then its
/// modals', to the position of that module; fails on the first uuid that
/// two of them share.
pub fn load_custom_id_map(modules: &Vec<Vec<u128>>) -> (r: Result<Vec<(u128, usize)>, DuplicateUuid>)
    ensures
        match r {
            Ok(m) => uuids_distinct(flat_uuids(uuid_lists(modules@))) && m@.map_values(
                |e: (u128, usize)| (e.0, e.1 as int),
            ) == flat_uuids(uuid_lists(modules@)),
            Err(d) => exists|j: int|
                first_repeat(flat_uuids(uuid_lists(modules@)), j) && #[trigger] flat_uuids(
                    uuid_lists(modules@),
                )[j].0 == d.uuid,
        },
{
    let ghost all = uuid_lists(modules@);
    let mut map: Vec<(u128, usize)> = Vec::new();
    let mut m: usize = 0;
    while m < modules.len()
        invariant
            all == uuid_lists(modules@),
            m <= modules@.len(),
            map@.map_values(|e: (u128, usize)| (e.0, e.1 as int)) == flat_uuids(all.take(m as int)),
            uuids_distinct(flat_uuids(all.take(m as int))),
        decreases modules@.len() - m,
    {
        let uuids = &modules[m];
        let ghost base = flat_uuids(all.take(m as int));
        assert(all.take(m + 1).drop_last() =~= all.take(m as int));
        assert(all.take(m + 1).last() == uuids@);
        let ghost full = flat_uuids(all.take(m + 1));
        assert(full == base + uuids@.map_values(|u: u128| (u, m as int)));
        let mut k: usize = 0;
        while k < uuids.len()
            invariant
                all == uuid_lists(modules@),
                m < modules@.len(),
                uuids@ == all[m as int],
                base == flat_uuids(all.take(m as int)),
                full == base + uuids@.map_values(|u: u128| (u, m as int)),
                full == flat_uuids(all.take(m + 1)),
                k <= uuids@.len(),
                map@.map_values(|e: (u128, usize)| (e.0, e.1 as int)) == full.take(base.len() + k),
                uuids_distinct(full.take(base.len() + k)),
            decreases uuids@.len() - k,
        {
            let u = uuids[k];
            let ghost pos = base.len() + k;
            assert(full[pos] == (u, m as int));
            assert(full.len() == base.len() + uuids@.len());
            let mut i: usize = 0;
            while i < map.len()
                invariant
                    all == uuid_lists(modules@),
                    m < modules@.len(),
                    full == flat_uuids(all.take(m + 1)),
                    0 <= pos < full.len(),
                    full[pos] == (u, m as int),
                    map@.map_values(|e: (u128, usize)| (e.0, e.1 as int)) == full.take(pos),
                    uuids_distinct(full.take(pos)),
                    i <= map@.len(),
                    forall|j: int| 0 <= j < i ==> (#[trigger] map@[j]).0 != u,
                decreases map@.len() - i,
            {
                if map[i].0 == u {
                    proof {
                        let view = map@.map_values(|e: (u128, usize)| (e.0, e.1 as int));
                        assert(view.len() == map@.len());
                        assert(full.take(pos).len() == pos);
                        assert(i < pos);
                        assert(view[i as int].0 == u);
                        assert(full.take(pos)[i as int] == full[i as int]);
                        assert(full[i as int].0 == full[pos].0);
                        assert(first_repeat(full, pos));
                        lemma_repeat_extends(all, m as int + 1, pos);
                    }
                    return Err(DuplicateUuid { uuid: u });
                }
                i += 1;
            }
            let ghost view_before = map@.map_values(|e: (u128, usize)| (e.0, e.1 as int));
            map.push((u, m));
            proof {
                assert(map@.map_values(|e: (u128, usize)| (e.0, e.1 as int)) =~= view_before.push((u, m as int)));
                assert(full.take(pos + 1) =~= full.take(pos).push(full[pos]));
                assert forall|a: int, b: int| 0 <= a < b < full.take(pos + 1).len() implies
                    #[trigger] full.take(pos + 1)[a].0 != #[trigger] full.take(pos + 1)[b].0 by {
                    if b == pos {
                        assert(view_before[a] == full.take(pos)[a]);
                        assert(map@[a].0 != u);
                    } else {
                        assert(full.take(pos)[a].0 != full.take(pos)[b].0);
                    }
                }
            }
            k += 1;
        }
        assert(full.take(base.len() + k) =~= full);
        m += 1;
    }
    assert(all.take(m as int) =~= all);
    Ok(map)
}

/// A first repeat among the uuids of the first `m` modules is the first
/// repeat among the uuids of all of them.
proof fn lemma_repeat_extends(all: Seq<Seq<u128>>, m: int, j: int)
    requires
        0 <= m <= all.len(),
        first_repeat(flat_uuids(all.take(m)), j),
    ensures
        first_repeat(flat_uuids(all), j),
        flat_uuids(all)[j] == flat_uuids(all.take(m))[j],
    decreases all.len() - m,
{
    if m < all.len() {
        let a = flat_uuids(all.take(m));
        let b = flat_uuids(all.take(m + 1));
        assert(all.take(m + 1).drop_last() =~= all.take(m));
        assert(b == a + all[m].map_values(|u: u128| (u, m)));
        assert(b.take(j) =~= a.take(j));
        let i = choose|i: int| 0 <= i < j && #[trigger] a[i].0 == a[j].0;
        assert(b[i] == a[i]);
        assert(b[j] == a[j]);
        lemma_repeat_extends(all, m + 1, j);
    } else {
        assert(all.take(m) =~= all);
    }
}

// ---------------------------------------------------------------------------
// The application commands that Discord is sent.

/// A subcommand of an application command: one command, or a group of them,
/// each with its description.
#[derive(Debug)]
pub enum AppSubcommand<'a, C> {
    Subcommand(&'a C),
    Group(Vec<(Description, &'a C)>),
}

/// What an application command holds: its command's options, or its
/// subcommands with their descriptions.
#[derive(Debug)]
pub enum AppCommandBody<'a, C> {
    Command(&'a C),
    Subcommands(Vec<(Description, AppSubcommand<'a, C>)>),
}

/// An application command as Discord is sent it.
#[derive(Debug)]
pub struct AppCommand<'a, C> {
    pub description: Description,
    pub body: AppCommandBody<'a, C>,
}

/// `d` describes the command at path `p` with its translations from `l10n`.
pub open spec fn describes_path(l10n: TranslatedCommands, d: Description, p: PathView) -> bool {
    describes(
        d,
        path_last(p),
        match l10n.path_translations(p) {
            Some(c) => Some(c.name),
            None => None,
        },
        match l10n.path_translations(p) {
            Some(c) => Some(c.description),
            None => None,
        },
    )
}

/// The commands `w` of group `g` of command `name` are those of `gm`, in order.
pub open spec fn group_matches<C>(
    l10n: TranslatedCommands,
    w: Seq<(Description, &C)>,
    name: Seq<char>,
    g: Seq<char>,
    gm: Seq<(Seq<char>, C)>,
) -> bool {
    &&& w.len() == gm.len()
    &&& forall|l: int|
        0 <= l < w.len() ==> describes_path(l10n, (#[trigger] w[l]).0, PathView::Grouped(name, g, gm[l].0))
            && *w[l].1 == gm[l].1
}

/// The subcommand `s` of command `name` stands for the entry `e` of key `k`.
pub open spec fn sub_matches<C>(
    l10n: TranslatedCommands,
    s: (Description, AppSubcommand<C>),
    name: Seq<char>,
    k: Seq<char>,
    e: SubEntryView<C>,
) -> bool {
    &&& describes_path(l10n, s.0, PathView::Subcommand(name, k))
    &&& match (s.1, e) {
        (AppSubcommand::Subcommand(c), SubEntryView::Subcommand(x)) => *c == x,
        (AppSubcommand::Group(w), SubEntryView::Group(gm)) => group_matches(l10n, w@, name, k, gm),
        _ => false,
    }
}

/// The subcommands `v` of command `name` stand for the entries `sm`, in order.
pub open spec fn subs_match<C>(
    l10n: TranslatedCommands,
    v: Seq<(Description, AppSubcommand<C>)>,
    name: Seq<char>,
    sm: Seq<(Seq<char>, SubEntryView<C>)>,
) -> bool {
    &&& v.len() == sm.len()
    &&& forall|j: int| 0 <= j < v.len() ==> sub_matches(l10n, #[trigger] v[j], name, sm[j].0, sm[j].1)
}

/// The application command `a` stands for the entry `e` of command `name`.
pub open spec fn app_command_matches<C>(
    l10n: TranslatedCommands,
    a: AppCommand<C>,
    name: Seq<char>,
    e: EntryView<C>,
) -> bool {
    &&& describes_path(l10n, a.description, PathView::Command(name))
    &&& match (a.body, e) {
        (AppCommandBody::Command(c), EntryView::Command(x)) => *c == x,
        (AppCommandBody::Subcommands(v), EntryView::Subcommands(sm)) => subs_match(l10n, v@, name, sm),
        _ => false,
    }
}

/// The group `group` of command `name`, each command described.
fn describe_group<'a, C>(
    l10n: &TranslatedCommands,
    name: &str,
    group: &str,
    commands: &'a Vec<(String, C)>,
) -> (r: Vec<(Description, &'a C)>)
    ensures
        group_matches(*l10n, r@, name@, group@, group_view(commands@)),
{
    let ghost gm = group_view(commands@);
    let mut out: Vec<(Description, &'a C)> = Vec::new();
    let mut l: usize = 0;
    while l < commands.len()
        invariant
            gm == group_view(commands@),
            l <= commands@.len(),
            out@.len() == l,
            forall|k: int|
                0 <= k < l ==> describes_path(*l10n, (#[trigger] out@[k]).0, PathView::Grouped(name@, group@, gm[k].0))
                    && *out@[k].1 == gm[k].1,
        decreases commands@.len() - l,
    {
        let (subcommand, command) = (&commands[l].0, &commands[l].1);
        let d = l10n.describe_subcommand(
            CommandPathRef::Grouped { name, group, subcommand: subcommand.as_str() },
        );
        out.push((d, command));
        l += 1;
    }
    out
}

/// The subcommands of command `name`, each described.
fn describe_subcommands<'a, C>(
    l10n: &TranslatedCommands,
    name: &str,
    entries: &'a Vec<(String, SubcommandMapEntry<C>)>,
) -> (r: Vec<(Description, AppSubcommand<'a, C>)>)
    ensures
        subs_match(*l10n, r@, name@, subs_view(entries@)),
{
    let ghost sm = subs_view(entries@);
    let mut out: Vec<(Description, AppSubcommand<'a, C>)> = Vec::new();
    let mut j: usize = 0;
    while j < entries.len()
        invariant
            sm == subs_view(entries@),
            j <= entries@.len(),
            out@.len() == j,
            forall|k: int| 0 <= k < j ==> sub_matches(*l10n, #[trigger] out@[k], name@, sm[k].0, sm[k].1),
        decreases entries@.len() - j,
    {
        let subcommand = entries[j].0.as_str();
        let d = l10n.describe_subcommand(CommandPathRef::Subcommand { name, subcommand });
        let body = match &entries[j].1 {
            SubcommandMapEntry::Subcommand(c) => AppSubcommand::Subcommand(c),
            SubcommandMapEntry::Group(g) => AppSubcommand::Group(
                describe_group(l10n, name, subcommand, g.entries()),
            ),
        };
        out.push((d, body));
        j += 1;
    }
    out
}

/// The application commands of `map`, one for each of its top-level names in
/// the order of the map, each described with its translations from `l10n`.
pub fn create_application_commands<'a, C>(map: &'a CommandMap<C>, l10n: &TranslatedCommands) -> (r: Vec<
    AppCommand<'a, C>,
>)
    ensures
        r@.len() == map@.len(),
        forall|i: int|
            0 <= i < r@.len() ==> app_command_matches(*l10n, #[trigger] r@[i], map@[i].0, map@[i].1),
{
    let entries = map.entries();
    let ghost m = map@;
    let mut out: Vec<AppCommand<'a, C>> = Vec::new();
    let mut i: usize = 0;
    while i < entries.len()
        invariant
            m == map_view(entries@),
            i <= entries@.len(),
            out@.len() == i,
            forall|k: int| 0 <= k < i ==> app_command_matches(*l10n, #[trigger] out@[k], m[k].0, m[k].1),
        decreases entries@.len() - i,
    {
        let name = entries[i].0.as_str();
        let description = l10n.describe_command(name);
        let body = match &entries[i].1 {
            CommandMapEntry::Command(c) => AppCommandBody::Command(c),
            CommandMapEntry::Subcommands(s) => AppCommandBody::Subcommands(
                describe_subcommands(l10n, name, s.entries()),
            ),
        };
        out.push(AppCommand { description, body });
        i += 1;
    }
    out
}

// ---------------------------------------------------------------------------
// What the bot reports.

/// `"s"` unless `n` is one: the plural ending for `n` things.
pub open spec fn plural(n: nat) -> Seq<char> {
    if n == 1 {
        Seq::empty()
    } else {
        seq!['s']
    }
}

/// Appends the plural ending for `n` things.
fn append_plural(chars: &mut Vec<char>, n: usize)
    ensures
        final(chars)@ == old(chars)@ + plural(n as nat),
{
    if n != 1 {
        chars.push('s');
    }
    assert(final(chars)@ =~= old(chars)@ + plural(n as nat));
}

/// Appends the decimal text of `n`.
fn append_number(chars: &mut Vec<char>, n: usize)
    ensures
        final(chars)@ == old(chars)@ + decimal_text(n as nat),
{
    let text = usize_to_string(n);
    append_str(chars, text.as_str());
}

/// The message for connecting: `Connected as <bot> to <n> guild(s)` the
/// first time, `Reconnected ...` after that.
pub open spec fn connect_message(first: bool, bot_name: Seq<char>, guild_count: nat) -> Seq<char> {
    (if first {
        "Connected"@
    } else {
        "Reconnected"@
    }) + " as "@ + bot_name + " to "@ + decimal_text(guild_count) + " guild"@ + plural(guild_count)
}

/// Notes a connection: whether it is the first, and the message to report.
pub fn notify_connect(already_connected: &mut bool, bot_name: &str, guild_count: usize) -> (r: (bool, String))
    ensures
        *final(already_connected),
        r.0 == !*old(already_connected),
        r.1@ == connect_message(r.0, bot_name@, guild_count as nat),
{
    let first_connect = !*already_connected;
    *already_connected = true;
    let mut chars: Vec<char> = Vec::new();
    if first_connect {
        append_str(&mut chars, "Connected");
    } else {
        append_str(&mut chars, "Reconnected");
    }
    append_str(&mut chars, " as ");
    append_str(&mut chars, bot_name);
    append_str(&mut chars, " to ");
    append_number(&mut chars, guild_count);
    append_str(&mut chars, " guild");
    append_plural(&mut chars, guild_count);
    (first_connect, string_of(chars.as_slice()))
}

/// Where application commands are registered: for all guilds, or for each
/// of these guilds.
#[derive(Clone, Debug, PartialEq, Eq)]
pub enum UpdateTarget {
    Global,
    Guilds(Vec<u64>),
}

/// The message that announces the update of `command_count` application
/// commands by `update`, with `connected` guilds connected.
pub open spec fn update_message(update: ApplicationCommandUpdate, command_count: nat, connected: nat) -> Seq<
    char,
> {
    let commands = "Updating "@ + decimal_text(command_count) + " application command"@ + plural(
        command_count,
    );
    match update {
        ApplicationCommandUpdate::Global => commands + " globally..."@,
        ApplicationCommandUpdate::Connected => commands + " for all "@ + decimal_text(connected)
            + " connected guild"@ + plural(connected) + "..."@,
        ApplicationCommandUpdate::Only(gs) => commands + " only for the "@ + decimal_text(gs@.len())
            + " specified guild"@ + plural(gs@.len()) + "..."@,
    }
}

/// A copy of the guild ids.
fn copy_ids(ids: &Vec<u64>) -> (r: Vec<u64>)
    ensures
        r@ == ids@,
{
    let mut r: Vec<u64> = Vec::new();
    let mut i: usize = 0;
    while i < ids.len()
        invariant
            i <= ids@.len(),
            r@ == ids@.take(i as int),
        decreases ids@.len() - i,
    {
        r.push(ids[i]);
        i += 1;
        assert(r@ =~= ids@.take(i as int));
    }
    assert(ids@.take(i as int) =~= ids@);
    r
}

/// Where `update` registers the application commands, with the guilds
/// `connected` connected, and the message that announces it.
pub fn plan_update(update: &ApplicationCommandUpdate, command_count: usize, connected: &Vec<u64>) -> (r: (
    UpdateTarget,
    String,
))
    ensures
        match update {
            ApplicationCommandUpdate::Global => r.0 is Global,
            ApplicationCommandUpdate::Connected => r.0 matches UpdateTarget::Guilds(gs) && gs@ == connected@,
            ApplicationCommandUpdate::Only(only) => r.0 matches UpdateTarget::Guilds(gs) && gs@ == only@,
        },
        r.1@ == update_message(*update, command_count as nat, connected@.len()),
{
    let mut chars: Vec<char> = Vec::new();
    append_str(&mut chars, "Updating ");
    append_number(&mut chars, command_count);
    append_str(&mut chars, " application command");
    append_plural(&mut chars, command_count);
    let target = match update {
        ApplicationCommandUpdate::Global => {
            append_str(&mut chars, " globally...");
            UpdateTarget::Global
        },
        ApplicationCommandUpdate::Connected => {
            append_str(&mut chars, " for all ");
            append_number(&mut chars, connected.len());
            append_str(&mut chars, " connected guild");
            append_plural(&mut chars, connected.len());
            append_str(&mut chars, "...");
            UpdateTarget::Guilds(copy_ids(connected))
        },
        ApplicationCommandUpdate::Only(gs) => {
            append_str(&mut chars, " only for the ");
            append_number(&mut chars, gs.len());
            append_str(&mut chars, " specified guild");
            append_plural(&mut chars, gs.len());
            append_str(&mut chars, "...");
            UpdateTarget::Guilds(copy_ids(gs))
        },
    };
    (target, string_of(chars.as_slice()))
}


/// The message of an unknown command at `path`: the title and text of the
/// field that the user is shown.
pub open spec fn unknown_command_field_spec(path: PathView) -> (Seq<char>, Seq<char>) {
    (":x: Unknown command: `/"@ + path_text(path) + "`"@, "Bot commands are likely outdated."@)
}

/// What a command interaction at `path` runs: the command of the map, or,
/// for a path the map does not know, nothing but a message to the user.
pub fn route_command<'a, C>(map: &'a CommandMap<C>, path: &CommandPath) -> (r: Result<&'a C, (String, String)>)
    ensures
        match lookup(map@, path@) {
            Some(c) => r matches Ok(x) && *x == c,
            None => r matches Err((t, v)) && (t@, v@) == unknown_command_field_spec(path@),
        },
{
    match map.find_command(path) {
        Some(c) => Ok(c),
        None => {
            let mut title: Vec<char> = Vec::new();
            append_str(&mut title, ":x: Unknown command: `/");
            let text = path.to_text();
            append_str(&mut title, text.as_str());
            append_str(&mut title, "`");
            let mut value: Vec<char> = Vec::new();
            append_str(&mut value, "Bot commands are likely outdated.");
            Err((string_of(title.as_slice()), string_of(value.as_slice())))
        },
    }
}

/// The module that handles the uuid in a custom id map, if any.
pub open spec fn module_for(map: Seq<(u128, usize)>, uuid: u128) -> Option<usize>
    decreases map.len(),
{
    if map.len() == 0 {
        None
    } else if map[0].0 == uuid {
        Some(map[0].1)
    } else {
        module_for(map.drop_first(), uuid)
    }
}

/// No module handles a custom id's uuid.
#[derive(Clone, Copy, Debug, PartialEq, Eq, Structural)]
pub struct NoModule {
    pub uuid: u128,
}

/// The module that handles the custom id uuid `uuid`.
pub fn resolve_custom_id_module(map: &Vec<(u128, usize)>, uuid: u128) -> (r: Result<usize, NoModule>)
    ensures
        match module_for(map@, uuid) {
            Some(m) => r == Ok::<usize, NoModule>(m),
            None => r == Err::<usize, NoModule>(NoModule { uuid }),
        },
{
    let mut i: usize = 0;
    assert(map@.skip(0) =~= map@);
    while i < map.len()
        invariant
            i <= map@.len(),
            module_for(map@, uuid) == module_for(map@.skip(i as int), uuid),
        decreases map@.len() - i,
    {
        assert(map@.skip(i as int).drop_first() =~= map@.skip(i + 1));
        if map[i].0 == uuid {
            return Ok(map[i].1);
        }
        i += 1;
    }
    Err(NoModule { uuid })
}

/// The custom id `c` is the text of the uuid `id`, a space, and the state
/// text `s`.
pub open spec fn splits_as(c: Seq<char>, id: u128, s: Seq<char>) -> bool {
    exists|i: int|
        0 <= i < c.len() && c[i] == ' ' && !c.subrange(0, i).contains(' ') && uuid_parse(c.subrange(0, i))
            == Some(id) && s == c.subrange(i + 1, c.len() as int)
}

/// Why an interaction with a custom id could not be routed.
#[derive(Debug)]
pub enum RouteError {
    /// The custom id is malformed.
    CustomId(CustomIdError),
    /// No module handles the custom id's uuid.
    NoModule(NoModule),
}

/// What routing the custom id `custom_id` with the handler map `map` may
/// give: the module that handles its uuid, with the uuid and the state text;
/// or why it could not be routed.
pub open spec fn custom_id_route(
    map: Seq<(u128, usize)>,
    custom_id: Seq<char>,
    r: Result<(usize, u128, String), RouteError>,
) -> bool {
    &&& r matches Ok((m, id, s)) ==> module_for(map, id) == Some(m) && splits_as(custom_id, id, s@)
    &&& r matches Err(RouteError::NoModule(n)) ==> module_for(map, n.uuid) is None && exists|s: Seq<char>|
        splits_as(custom_id, n.uuid, s)
    &&& r matches Err(RouteError::CustomId(CustomIdError::Invalid { custom_id: c })) ==> !custom_id.contains(' ')
        && c@ == custom_id
    &&& r matches Err(RouteError::CustomId(CustomIdError::InvalidUuid { uuid })) ==> custom_id.contains(' ')
        && uuid_parse(uuid@) is None && custom_id == uuid@ + seq![' '] + custom_id.subrange(
        uuid@.len() + 1int,
        custom_id.len() as int,
    ) && !uuid@.contains(' ')
    &&& forall|id: u128, s: Seq<char>|
        custom_id == #[trigger] custom_id_text(id, s) ==> match module_for(map, id) {
            Some(m) => r matches Ok((m2, id2, s2)) && m2 == m && id2 == id && s2@ == s,
            None => r matches Err(RouteError::NoModule(n)) && n.uuid == id,
        }
}

/// Where a component or modal interaction with the custom id `custom_id`
/// goes: the module that handles its uuid, with the uuid and the state text.
pub fn route_custom_id(map: &Vec<(u128, usize)>, custom_id: &str) -> (r: Result<(usize, u128, String), RouteError>)
    ensures
        custom_id_route(map@, custom_id@, r),
{
    match parse_custom_id(custom_id) {
        Ok((id, state)) => {
            assert(splits_as(custom_id@, id, state@));
            match resolve_custom_id_module(map, id) {
                Ok(m) => Ok((m, id, state)),
                Err(n) => Err(RouteError::NoModule(n)),
            }
        },
        Err(e) => Err(RouteError::CustomId(e)),
    }
}

/// The kind of a message component that was interacted with.
#[derive(Clone, Copy, Debug, PartialEq, Eq, Structural)]
pub enum ComponentKind {
    ActionRow,
    Button,
    SelectMenu,
    InputText,
    Other,
}

/// Interactions with buttons and select menus are routed to a module; those
/// with other components are ignored.
pub open spec fn routed_component(kind: ComponentKind) -> bool {
    kind == ComponentKind::Button || kind == ComponentKind::SelectMenu
}

/// Where an interaction with a component of kind `kind` and the custom id
/// `custom_id` goes: nowhere for components other than buttons and select
/// menus, and otherwise as its custom id routes.
pub fn route_component(map: &Vec<(u128, usize)>, kind: ComponentKind, custom_id: &str) -> (r: Option<
    Result<(usize, u128, String), RouteError>,
>)
    ensures
        match r {
            None => !routed_component(kind),
            Some(x) => routed_component(kind) && custom_id_route(map@, custom_id@, x),
        },
{
    match kind {
        ComponentKind::Button | ComponentKind::SelectMenu => Some(route_custom_id(map, custom_id)),
        _ => None,
    }
}

/// The name shown for a guild whose name could not be fetched: its id in
/// angle brackets.
pub fn guild_fallback_name(id: u64) -> (r: String)
    ensures
        r@ == "<"@ + decimal_text(id as nat) + ">"@,
{
    let mut chars: Vec<char> = Vec::new();
    append_str(&mut chars, "<");
    let text = u64_to_string(id);
    append_str(&mut chars, text.as_str());
    append_str(&mut chars, ">");
    string_of(chars.as_slice())
}

/// The report of the update of the commands of `guild`: a check mark, or a
/// warning with the error on a second line.
pub open spec fn update_report_spec(guild: Seq<char>, error: Option<Seq<char>>) -> Seq<char> {
    match error {
        None => " ✓ "@ + guild,
        Some(e) => " ⚠ "@ + guild + "\n   ▶ "@ + e,
    }
}

/// The report of the update of the commands of `guild`, which failed with
/// `error` if there is one.
pub fn update_report(guild: &str, error: Option<&str>) -> (r: String)
    ensures
        r@ == update_report_spec(guild@, match error {
            Some(e) => Some(e@),
            None => None,
        }),
{
    let mut chars: Vec<char> = Vec::new();
    match error {
        None => {
            append_str(&mut chars, " ✓ ");
            append_str(&mut chars, guild);
        },
        Some(e) => {
            append_str(&mut chars, " ⚠ ");
            append_str(&mut chars, guild);
            append_str(&mut chars, "\n   ▶ ");
            append_str(&mut chars, e);
        },
    }
    string_of(chars.as_slice())
}


impl DuplicateUuid {
    /// The message of this error.
    pub fn message(&self) -> (r: String)
        ensures
            r@ == "duplicate interaction uuid: "@ + uuid_hyphenated_text(self.uuid),
    {
        let mut chars: Vec<char> = Vec::new();
        append_str(&mut chars, "duplicate interaction uuid: ");
        let text = uuid_hyphenated(self.uuid);
        append_str(&mut chars, text.as_str());
        string_of(chars.as_slice())
    }
}

impl NoModule {
    /// The message of this error.
    pub fn message(&self) -> (r: String)
        ensures
            r@ == "no module that handles the custom_id uuid "@ + uuid_hyphenated_text(self.uuid),
    {
        let mut chars: Vec<char> = Vec::new();
        append_str(&mut chars, "no module that handles the custom_id uuid ");
        let text = uuid_hyphenated(self.uuid);
        append_str(&mut chars, text.as_str());
        string_of(chars.as_slice())
    }
}

} // verus!
