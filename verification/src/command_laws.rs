//! What building a command map from paths guarantees: it succeeds exactly
//! when no two paths clash, and then each path finds its own command.

use vstd::prelude::*;

use crate::assoc::{
    lemma_seq_get_index, lemma_seq_get_push, lemma_seq_get_update, lemma_seq_key_pos,
    lemma_seq_keys_distinct_push, lemma_seq_keys_distinct_update, seq_get, seq_has_key, seq_key_pos,
    seq_keys_distinct,
};
use crate::command::{
    add_entry_spec, entry_lookup, lookup, path_sub_key, sub_entry_lookup, merge_entries_spec, merge_entry_spec, merge_group_spec,
    merge_sub_entry_spec, merge_subs_spec, path_entries, path_entry, path_name, wf_entry, wf_map,
    wf_sub_entry, wf_subs, EntryView, MergeErrorView, PathView, SubEntryView,
};

verus! {

/// Two paths clash: they are the same, or one would have to be both a
/// command and the parent of the other.
pub open spec fn paths_clash(p: PathView, q: PathView) -> bool {
    path_name(p) == path_name(q) && match (p, q) {
        (PathView::Subcommand(_, s), PathView::Subcommand(_, t)) => s == t,
        (PathView::Subcommand(_, s), PathView::Grouped(_, g, _)) => s == g,
        (PathView::Grouped(_, g, _), PathView::Subcommand(_, s)) => s == g,
        (PathView::Grouped(_, g, s), PathView::Grouped(_, h, t)) => g == h && s == t,
        _ => true,
    }
}

/// No two paths of the list clash.
pub open spec fn no_clashes<C>(list: Seq<(PathView, C)>) -> bool {
    forall|i: int, j: int|
        0 <= i < j < list.len() ==> !paths_clash(#[trigger] list[i].0, #[trigger] list[j].0)
}

/// `p` is the subcommand `s` of command `n`, or lies in the group `s` of `n`.
pub open spec fn under_sub(p: PathView, n: Seq<char>, s: Seq<char>) -> bool {
    match p {
        PathView::Subcommand(a, b) => a == n && b == s,
        PathView::Grouped(a, b, _) => a == n && b == s,
        _ => false,
    }
}

/// Some path of the list has the top-level name `n`.
pub open spec fn name_listed<C>(list: Seq<(PathView, C)>, n: Seq<char>) -> bool {
    exists|i: int| 0 <= i < list.len() && path_name(#[trigger] list[i].0) == n
}

/// Some path of the list is the subcommand `s` of `n`, or lies in its group `s`.
pub open spec fn sub_listed<C>(list: Seq<(PathView, C)>, n: Seq<char>, s: Seq<char>) -> bool {
    exists|i: int| 0 <= i < list.len() && under_sub(#[trigger] list[i].0, n, s)
}

/// The path `n g s` is in the list.
pub open spec fn grouped_listed<C>(list: Seq<(PathView, C)>, n: Seq<char>, g: Seq<char>, s: Seq<char>) -> bool {
    exists|i: int| 0 <= i < list.len() && #[trigger] list[i].0 == PathView::Grouped(n, g, s)
}

/// Every name in the map stands for some path of the list.
pub open spec fn names_accounted<C>(m: Seq<(Seq<char>, EntryView<C>)>, list: Seq<(PathView, C)>) -> bool {
    forall|j: int| 0 <= j < m.len() ==> name_listed(list, #[trigger] m[j].0)
}

/// Every subcommand or group name in the map stands for some path of the list.
pub open spec fn subs_accounted<C>(m: Seq<(Seq<char>, EntryView<C>)>, list: Seq<(PathView, C)>) -> bool {
    forall|j: int, k: int|
        #![trigger sub_key(m[j].1, k)]
        0 <= j < m.len() && 0 <= k < subs_of(m[j].1).len()
            ==> sub_listed(list, m[j].0, sub_key(m[j].1, k))
}

/// The subcommand entries of an entry (none for a command).
pub open spec fn subs_of<C>(e: EntryView<C>) -> Seq<(Seq<char>, SubEntryView<C>)> {
    match e {
        EntryView::Subcommands(s) => s,
        EntryView::Command(_) => Seq::empty(),
    }
}

/// The commands of a subcommand entry (none for a subcommand).
pub open spec fn group_of<C>(e: SubEntryView<C>) -> Seq<(Seq<char>, C)> {
    match e {
        SubEntryView::Group(g) => g,
        SubEntryView::Subcommand(_) => Seq::empty(),
    }
}

/// The name of the `k`-th subcommand entry of an entry with subcommands.
pub open spec fn sub_key<C>(e: EntryView<C>, k: int) -> Seq<char> {
    subs_of(e)[k].0
}

/// Every command name within a group of the map stands for a path of the list.
pub open spec fn groups_accounted<C>(m: Seq<(Seq<char>, EntryView<C>)>, list: Seq<(PathView, C)>) -> bool {
    forall|j: int, k: int, l: int|
        #![trigger group_key(m[j].1, k, l)]
        0 <= j < m.len() && 0 <= k < subs_of(m[j].1).len()
            && 0 <= l < group_of(subs_of(m[j].1)[k].1).len()
            ==> grouped_listed(list, m[j].0, sub_key(m[j].1, k), group_key(m[j].1, k, l))
}

/// The name of the `l`-th command of the `k`-th group of an entry.
pub open spec fn group_key<C>(e: EntryView<C>, k: int, l: int) -> Seq<char> {
    group_of(subs_of(e)[k].1)[l].0
}

/// The map `m` holds exactly the commands of `list`, each at its path.
pub open spec fn represents<C>(m: Seq<(Seq<char>, EntryView<C>)>, list: Seq<(PathView, C)>) -> bool {
    &&& wf_map(m)
    &&& forall|i: int| 0 <= i < list.len() ==> lookup(m, #[trigger] list[i].0) == Some(list[i].1)
    &&& names_accounted(m, list)
    &&& subs_accounted(m, list)
    &&& groups_accounted(m, list)
}

/// A path that finds a command has its name in the map.
proof fn lemma_lookup_has_name<C>(m: Seq<(Seq<char>, EntryView<C>)>, p: PathView)
    ensures
        lookup(m, p) is Some ==> seq_has_key(m, path_name(p)),
{
}

/// Adding an entry under a new name: paths under it look there, the others
/// find what they found before.
proof fn lemma_lookup_push<C>(m: Seq<(Seq<char>, EntryView<C>)>, e: (Seq<char>, EntryView<C>), p: PathView)
    requires
        seq_keys_distinct(m),
        !seq_has_key(m, e.0),
    ensures
        lookup(m.push(e), p) == if path_name(p) == e.0 {
            entry_lookup(e.1, p)
        } else {
            lookup(m, p)
        },
{
    lemma_seq_get_push(m, e, path_name(p));
}

/// Replacing the entry of a name: paths under it look in the new entry, the
/// others find what they found before.
proof fn lemma_lookup_update<C>(m: Seq<(Seq<char>, EntryView<C>)>, j: int, e: (Seq<char>, EntryView<C>), p: PathView)
    requires
        seq_keys_distinct(m),
        0 <= j < m.len(),
        e.0 == m[j].0,
    ensures
        lookup(m.update(j, e), p) == if path_name(p) == e.0 {
            entry_lookup(e.1, p)
        } else {
            lookup(m, p)
        },
{
    lemma_seq_get_update(m, j, e, path_name(p));
}

/// A path under the name of entry `j` looks in that entry.
proof fn lemma_lookup_at<C>(m: Seq<(Seq<char>, EntryView<C>)>, j: int, p: PathView)
    requires
        seq_keys_distinct(m),
        0 <= j < m.len(),
        path_name(p) == m[j].0,
    ensures
        lookup(m, p) == entry_lookup(m[j].1, p),
{
    lemma_seq_get_index(m, j);
}

/// Whatever the list holds, the longer list holds too.
proof fn lemma_listed_push<C>(list: Seq<(PathView, C)>, x: (PathView, C))
    ensures
        forall|n: Seq<char>| name_listed(list, n) ==> #[trigger] name_listed(list.push(x), n),
        forall|n: Seq<char>, s: Seq<char>| sub_listed(list, n, s) ==> #[trigger] sub_listed(list.push(x), n, s),
        forall|n: Seq<char>, g: Seq<char>, s: Seq<char>|
            grouped_listed(list, n, g, s) ==> #[trigger] grouped_listed(list.push(x), n, g, s),
        name_listed(list.push(x), path_name(x.0)),
{
    let l2 = list.push(x);
    assert forall|n: Seq<char>| name_listed(list, n) implies #[trigger] name_listed(l2, n) by {
        let i = choose|i: int| 0 <= i < list.len() && path_name(#[trigger] list[i].0) == n;
        assert(l2[i] == list[i]);
    }
    assert forall|n: Seq<char>, s: Seq<char>| sub_listed(list, n, s) implies #[trigger] sub_listed(l2, n, s) by {
        let i = choose|i: int| 0 <= i < list.len() && under_sub(#[trigger] list[i].0, n, s);
        assert(l2[i] == list[i]);
    }
    assert forall|n: Seq<char>, g: Seq<char>, s: Seq<char>|
        grouped_listed(list, n, g, s) implies #[trigger] grouped_listed(l2, n, g, s) by {
        let i = choose|i: int| 0 <= i < list.len() && #[trigger] list[i].0 == PathView::Grouped(n, g, s);
        assert(l2[i] == list[i]);
    }
    assert(l2[list.len() as int] == x);
}

/// Adding a top-level command: it succeeds exactly when no path of the list
/// has its name, and the map then holds the list and the command.
proof fn lemma_step_command<C>(m: Seq<(Seq<char>, EntryView<C>)>, list: Seq<(PathView, C)>, n: Seq<char>, c: C)
    requires
        represents(m, list),
    ensures
        add_entry_spec(m, n, EntryView::Command(c)) is Ok <==> forall|i: int|
            0 <= i < list.len() ==> !paths_clash(#[trigger] list[i].0, PathView::Command(n)),
        add_entry_spec(m, n, EntryView::Command(c)) matches Ok(m2) ==> represents(
            m2,
            list.push((PathView::Command(n), c)),
        ),
{
    let p = PathView::Command(n);
    if seq_has_key(m, n) {
        let j = seq_key_pos(m, n);
        assert(name_listed(list, m[j].0));
        let i = choose|i: int| 0 <= i < list.len() && path_name(#[trigger] list[i].0) == m[j].0;
        assert(paths_clash(list[i].0, p));
    } else {
        let e = (n, EntryView::<C>::Command(c));
        let m2 = m.push(e);
        let list2 = list.push((p, c));
        assert forall|i: int| 0 <= i < list.len() implies !paths_clash(#[trigger] list[i].0, p) by {
            lemma_lookup_has_name(m, list[i].0);
        }
        lemma_seq_keys_distinct_push(m, e);
        lemma_listed_push(list, (p, c));
        assert forall|i: int| 0 <= i < list2.len() implies lookup(m2, #[trigger] list2[i].0) == Some(list2[i].1) by {
            if i < list.len() {
                assert(list2[i] == list[i]);
                lemma_lookup_has_name(m, list[i].0);
                lemma_lookup_push(m, e, list[i].0);
            } else {
                lemma_lookup_push(m, e, p);
            }
        }
        assert forall|j: int| 0 <= j < m2.len() implies name_listed(list2, #[trigger] m2[j].0) by {
            if j < m.len() {
                assert(m2[j] == m[j]);
                assert(name_listed(list, m[j].0));
            }
        }
        assert forall|j: int, k: int|
            #![trigger sub_key(m2[j].1, k)]
            0 <= j < m2.len() && 0 <= k < subs_of(m2[j].1).len()
            implies sub_listed(list2, m2[j].0, sub_key(m2[j].1, k)) by {
            assert(m2[j] == m[j]);
            assert(sub_listed(list, m[j].0, sub_key(m[j].1, k)));
        }
        assert forall|j: int, k: int, l: int|
            #![trigger group_key(m2[j].1, k, l)]
            0 <= j < m2.len() && 0 <= k < subs_of(m2[j].1).len()
                && 0 <= l < group_of(subs_of(m2[j].1)[k].1).len()
            implies grouped_listed(list2, m2[j].0, sub_key(m2[j].1, k), group_key(m2[j].1, k, l)) by {
            assert(m2[j] == m[j]);
            assert(grouped_listed(list, m[j].0, sub_key(m[j].1, k), group_key(m[j].1, k, l)));
        }
    }
}

/// Merging a single subcommand entry.
proof fn lemma_single_subs<C>(sm: Seq<(Seq<char>, SubEntryView<C>)>, n: Seq<char>, x: (Seq<char>, SubEntryView<C>))
    ensures
        merge_subs_spec(sm, n, seq![x]) == if seq_has_key(sm, x.0) {
            match merge_sub_entry_spec(sm[seq_key_pos(sm, x.0)].1, n, x.0, x.1) {
                Ok(e) => Ok(sm.update(seq_key_pos(sm, x.0), (x.0, e))),
                Err(er) => Err(er),
            }
        } else {
            Ok(sm.push(x))
        },
{
    reveal_with_fuel(merge_subs_spec, 2);
    assert(seq![x].drop_first() =~= Seq::<(Seq<char>, SubEntryView<C>)>::empty());
    assert(seq![x][0] == x);
}

/// Merging a single group command.
proof fn lemma_single_group<C>(gm: Seq<(Seq<char>, C)>, n: Seq<char>, g: Seq<char>, x: (Seq<char>, C))
    ensures
        merge_group_spec(gm, n, g, seq![x]) == if seq_has_key(gm, x.0) {
            Err(MergeErrorView::Duplicate(PathView::Grouped(n, g, x.0)))
        } else {
            Ok(gm.push(x))
        },
{
    reveal_with_fuel(merge_group_spec, 2);
    assert(seq![x].drop_first() =~= Seq::<(Seq<char>, C)>::empty());
    assert(seq![x][0] == x);
}

/// A path of the list under a name held as a single command is that command.
proof fn lemma_under_command<C>(m: Seq<(Seq<char>, EntryView<C>)>, list: Seq<(PathView, C)>, j: int, i: int)
    requires
        represents(m, list),
        0 <= j < m.len(),
        m[j].1 is Command,
        0 <= i < list.len(),
        path_name(list[i].0) == m[j].0,
    ensures
        list[i].0 == PathView::Command(m[j].0),
{
    lemma_lookup_at(m, j, list[i].0);
    assert(lookup(m, list[i].0) == Some(list[i].1));
}

/// A path of the list under a name held as subcommands is not a command, and
/// its subcommand or group is held there.
proof fn lemma_under_subs<C>(m: Seq<(Seq<char>, EntryView<C>)>, list: Seq<(PathView, C)>, j: int, i: int)
    requires
        represents(m, list),
        0 <= j < m.len(),
        m[j].1 is Subcommands,
        0 <= i < list.len(),
        path_name(list[i].0) == m[j].0,
    ensures
        !(list[i].0 is Command),
        seq_has_key(subs_of(m[j].1), path_sub_key(list[i].0)),
        sub_entry_lookup(seq_get(subs_of(m[j].1), path_sub_key(list[i].0))->0, list[i].0) == Some(list[i].1),
{
    lemma_lookup_at(m, j, list[i].0);
    assert(lookup(m, list[i].0) == Some(list[i].1));
}

/// Adding a subcommand: it succeeds exactly when no path of the list clashes
/// with it, and the map then holds the list and the subcommand.
proof fn lemma_step_subcommand<C>(
    m: Seq<(Seq<char>, EntryView<C>)>,
    list: Seq<(PathView, C)>,
    n: Seq<char>,
    s: Seq<char>,
    c: C,
)
    requires
        represents(m, list),
    ensures
        ({
            let r = add_entry_spec(m, n, path_entry(PathView::Subcommand(n, s), c).1);
            &&& r is Ok <==> forall|i: int|
                0 <= i < list.len() ==> !paths_clash(#[trigger] list[i].0, PathView::Subcommand(n, s))
            &&& r matches Ok(m2) ==> represents(m2, list.push((PathView::Subcommand(n, s), c)))
        }),
{
    let p = PathView::Subcommand(n, s);
    let x = (s, SubEntryView::<C>::Subcommand(c));
    let e = EntryView::Subcommands(seq![x]);
    assert(path_entry(p, c).1 == e);
    let list2 = list.push((p, c));
    lemma_listed_push(list, (p, c));
    assert(list2[list.len() as int].0 == p);
    assert(under_sub(list2[list.len() as int].0, n, s));
    assert(sub_listed(list2, n, s));
    if !seq_has_key(m, n) {
        let m2 = m.push((n, e));
        assert forall|i: int| 0 <= i < list.len() implies !paths_clash(#[trigger] list[i].0, p) by {
            lemma_lookup_has_name(m, list[i].0);
        }
        lemma_seq_keys_distinct_push(m, (n, e));
        assert(seq_keys_distinct(seq![x]));
        assert(wf_entry(e));
        assert forall|i: int| 0 <= i < list2.len() implies lookup(m2, #[trigger] list2[i].0) == Some(list2[i].1) by {
            if i < list.len() {
                assert(list2[i] == list[i]);
                lemma_lookup_has_name(m, list[i].0);
                lemma_lookup_push(m, (n, e), list[i].0);
            } else {
                lemma_lookup_push(m, (n, e), p);
                lemma_seq_get_index(seq![x], 0);
            }
        }
        assert forall|j: int| 0 <= j < m2.len() implies name_listed(list2, #[trigger] m2[j].0) by {
            if j < m.len() {
                assert(m2[j] == m[j]);
                assert(name_listed(list, m[j].0));
            }
        }
        assert forall|j: int, k: int|
            #![trigger sub_key(m2[j].1, k)]
            0 <= j < m2.len() && 0 <= k < subs_of(m2[j].1).len()
            implies sub_listed(list2, m2[j].0, sub_key(m2[j].1, k)) by {
            if j < m.len() {
                assert(m2[j] == m[j]);
                assert(sub_listed(list, m[j].0, sub_key(m[j].1, k)));
            }
        }
        assert forall|j: int, k: int, l: int|
            #![trigger group_key(m2[j].1, k, l)]
            0 <= j < m2.len() && 0 <= k < subs_of(m2[j].1).len()
                && 0 <= l < group_of(subs_of(m2[j].1)[k].1).len()
            implies grouped_listed(list2, m2[j].0, sub_key(m2[j].1, k), group_key(m2[j].1, k, l)) by {
            assert(j < m.len());
            assert(m2[j] == m[j]);
            assert(grouped_listed(list, m[j].0, sub_key(m[j].1, k), group_key(m[j].1, k, l)));
        }
        assert(wf_map(m2));
        assert(represents(m2, list2));
    } else {
        let j = seq_key_pos(m, n);
        assert(name_listed(list, m[j].0));
        let iw = choose|i: int| 0 <= i < list.len() && path_name(#[trigger] list[i].0) == m[j].0;
        match m[j].1 {
            EntryView::Command(_) => {
                lemma_under_command(m, list, j, iw);
                assert(paths_clash(list[iw].0, p));
            },
            EntryView::Subcommands(sm) => {
                assert(wf_entry(m[j].1));
                lemma_single_subs(sm, n, x);
                if seq_has_key(sm, s) {
                    let k = seq_key_pos(sm, s);
                    assert(sub_key(m[j].1, k) == s);
                    assert(sub_listed(list, m[j].0, sub_key(m[j].1, k)));
                    let i = choose|i: int| 0 <= i < list.len() && under_sub(#[trigger] list[i].0, n, s);
                    assert(paths_clash(list[i].0, p));
                } else {
                    let sm2 = sm.push(x);
                    let e2 = EntryView::Subcommands(sm2);
                    let m2 = m.update(j, (n, e2));
                    assert forall|i: int| 0 <= i < list.len() implies !paths_clash(#[trigger] list[i].0, p) by {
                        if path_name(list[i].0) == n {
                            lemma_under_subs(m, list, j, i);
                        }
                    }
                    lemma_seq_get_push(sm, x, s);
                    assert(wf_subs(sm2)) by {
                        assert forall|k: int| 0 <= k < sm2.len() implies wf_sub_entry(#[trigger] sm2[k].1) by {
                            if k < sm.len() {
                                assert(sm2[k] == sm[k]);
                            }
                        }
                    }
                    lemma_seq_keys_distinct_update(m, j, (n, e2));
                    assert forall|i: int| 0 <= i < list2.len() implies lookup(m2, #[trigger] list2[i].0) == Some(list2[i].1) by {
                        lemma_lookup_update(m, j, (n, e2), list2[i].0);
                        if i < list.len() {
                            assert(list2[i] == list[i]);
                            if path_name(list[i].0) == n {
                                lemma_under_subs(m, list, j, i);
                                lemma_seq_get_push(sm, x, path_sub_key(list[i].0));
                            }
                        }
                    }
                    assert forall|jj: int| 0 <= jj < m2.len() implies name_listed(list2, #[trigger] m2[jj].0) by {
                        assert(m2[jj].0 == m[jj].0);
                        assert(name_listed(list, m[jj].0));
                    }
                    assert forall|jj: int, k: int|
                        #![trigger sub_key(m2[jj].1, k)]
                        0 <= jj < m2.len() && 0 <= k < subs_of(m2[jj].1).len()
                        implies sub_listed(list2, m2[jj].0, sub_key(m2[jj].1, k)) by {
                        if jj != j {
                            assert(m2[jj] == m[jj]);
                            assert(sub_listed(list, m[jj].0, sub_key(m[jj].1, k)));
                        } else if k < sm.len() {
                            assert(sm2[k] == sm[k]);
                            assert(sub_listed(list, m[jj].0, sub_key(m[jj].1, k)));
                        }
                    }
                    assert forall|jj: int, k: int, l: int|
                        #![trigger group_key(m2[jj].1, k, l)]
                        0 <= jj < m2.len() && 0 <= k < subs_of(m2[jj].1).len()
                            && 0 <= l < group_of(subs_of(m2[jj].1)[k].1).len()
                        implies grouped_listed(list2, m2[jj].0, sub_key(m2[jj].1, k), group_key(m2[jj].1, k, l)) by {
                        if jj != j {
                            assert(m2[jj] == m[jj]);
                            assert(grouped_listed(list, m[jj].0, sub_key(m[jj].1, k), group_key(m[jj].1, k, l)));
                        } else {
                            assert(k < sm.len());
                            assert(sm2[k] == sm[k]);
                            assert(grouped_listed(list, m[jj].0, sub_key(m[jj].1, k), group_key(m[jj].1, k, l)));
                        }
                    }
                    assert forall|jj: int| 0 <= jj < m2.len() implies wf_entry(#[trigger] m2[jj].1) by {
                        if jj != j {
                            assert(m2[jj] == m[jj]);
                        }
                    }
                    assert(represents(m2, list2));
                }
            },
        }
    }
}

/// Adding a command of a group: it succeeds exactly when no path of the list
/// clashes with it, and the map then holds the list and the command.
#[verifier::rlimit(40)]
proof fn lemma_step_grouped<C>(
    m: Seq<(Seq<char>, EntryView<C>)>,
    list: Seq<(PathView, C)>,
    n: Seq<char>,
    g: Seq<char>,
    t: Seq<char>,
    c: C,
)
    requires
        represents(m, list),
    ensures
        ({
            let r = add_entry_spec(m, n, path_entry(PathView::Grouped(n, g, t), c).1);
            &&& r is Ok <==> forall|i: int|
                0 <= i < list.len() ==> !paths_clash(#[trigger] list[i].0, PathView::Grouped(n, g, t))
            &&& r matches Ok(m2) ==> represents(m2, list.push((PathView::Grouped(n, g, t), c)))
        }),
{
    let p = PathView::Grouped(n, g, t);
    let y = (t, c);
    let x = (g, SubEntryView::Group(seq![y]));
    let e = EntryView::Subcommands(seq![x]);
    assert(path_entry(p, c).1 == e);
    let list2 = list.push((p, c));
    lemma_listed_push(list, (p, c));
    assert(list2[list.len() as int].0 == p);
    assert(under_sub(list2[list.len() as int].0, n, g));
    assert(sub_listed(list2, n, g));
    assert(grouped_listed(list2, n, g, t));
    assert(seq_keys_distinct(seq![y]));
    if !seq_has_key(m, n) {
        let m2 = m.push((n, e));
        assert forall|i: int| 0 <= i < list.len() implies !paths_clash(#[trigger] list[i].0, p) by {
            lemma_lookup_has_name(m, list[i].0);
        }
        lemma_seq_keys_distinct_push(m, (n, e));
        assert(seq_keys_distinct(seq![x]));
        assert(wf_entry(e));
        assert forall|i: int| 0 <= i < list2.len() implies lookup(m2, #[trigger] list2[i].0) == Some(list2[i].1) by {
            if i < list.len() {
                assert(list2[i] == list[i]);
                lemma_lookup_has_name(m, list[i].0);
                lemma_lookup_push(m, (n, e), list[i].0);
            } else {
                lemma_lookup_push(m, (n, e), p);
                lemma_seq_get_index(seq![x], 0);
                lemma_seq_get_index(seq![y], 0);
            }
        }
        assert forall|j: int| 0 <= j < m2.len() implies name_listed(list2, #[trigger] m2[j].0) by {
            if j < m.len() {
                assert(m2[j] == m[j]);
                assert(name_listed(list, m[j].0));
            }
        }
        assert forall|j: int, k: int|
            #![trigger sub_key(m2[j].1, k)]
            0 <= j < m2.len() && 0 <= k < subs_of(m2[j].1).len()
            implies sub_listed(list2, m2[j].0, sub_key(m2[j].1, k)) by {
            if j < m.len() {
                assert(m2[j] == m[j]);
                assert(sub_listed(list, m[j].0, sub_key(m[j].1, k)));
            }
        }
        assert forall|j: int, k: int, l: int|
            #![trigger group_key(m2[j].1, k, l)]
            0 <= j < m2.len() && 0 <= k < subs_of(m2[j].1).len()
                && 0 <= l < group_of(subs_of(m2[j].1)[k].1).len()
            implies grouped_listed(list2, m2[j].0, sub_key(m2[j].1, k), group_key(m2[j].1, k, l)) by {
            if j < m.len() {
                assert(m2[j] == m[j]);
                assert(grouped_listed(list, m[j].0, sub_key(m[j].1, k), group_key(m[j].1, k, l)));
            }
        }
        assert(represents(m2, list2));
    } else {
        let j = seq_key_pos(m, n);
        assert(name_listed(list, m[j].0));
        let iw = choose|i: int| 0 <= i < list.len() && path_name(#[trigger] list[i].0) == m[j].0;
        match m[j].1 {
            EntryView::Command(_) => {
                lemma_under_command(m, list, j, iw);
                assert(paths_clash(list[iw].0, p));
            },
            EntryView::Subcommands(sm) => {
                assert(wf_entry(m[j].1));
                lemma_single_subs(sm, n, x);
                if !seq_has_key(sm, g) {
                    let sm2 = sm.push(x);
                    let e2 = EntryView::Subcommands(sm2);
                    let m2 = m.update(j, (n, e2));
                    assert forall|i: int| 0 <= i < list.len() implies !paths_clash(#[trigger] list[i].0, p) by {
                        if path_name(list[i].0) == n {
                            lemma_under_subs(m, list, j, i);
                        }
                    }
                    lemma_seq_get_push(sm, x, g);
                    assert(wf_subs(sm2)) by {
                        assert forall|k: int| 0 <= k < sm2.len() implies wf_sub_entry(#[trigger] sm2[k].1) by {
                            if k < sm.len() {
                                assert(sm2[k] == sm[k]);
                            }
                        }
                    }
                    lemma_seq_keys_distinct_update(m, j, (n, e2));
                    assert forall|i: int| 0 <= i < list2.len() implies lookup(m2, #[trigger] list2[i].0) == Some(list2[i].1) by {
                        lemma_lookup_update(m, j, (n, e2), list2[i].0);
                        if i < list.len() {
                            assert(list2[i] == list[i]);
                            if path_name(list[i].0) == n {
                                lemma_under_subs(m, list, j, i);
                                lemma_seq_get_push(sm, x, path_sub_key(list[i].0));
                            }
                        } else {
                            lemma_seq_get_index(seq![y], 0);
                        }
                    }
                    assert forall|jj: int| 0 <= jj < m2.len() implies name_listed(list2, #[trigger] m2[jj].0) by {
                        assert(m2[jj].0 == m[jj].0);
                        assert(name_listed(list, m[jj].0));
                    }
                    assert forall|jj: int, k: int|
                        #![trigger sub_key(m2[jj].1, k)]
                        0 <= jj < m2.len() && 0 <= k < subs_of(m2[jj].1).len()
                        implies sub_listed(list2, m2[jj].0, sub_key(m2[jj].1, k)) by {
                        if jj != j {
                            assert(m2[jj] == m[jj]);
                            assert(sub_listed(list, m[jj].0, sub_key(m[jj].1, k)));
                        } else if k < sm.len() {
                            assert(sm2[k] == sm[k]);
                            assert(sub_listed(list, m[jj].0, sub_key(m[jj].1, k)));
                        }
                    }
                    assert forall|jj: int, k: int, l: int|
                        #![trigger group_key(m2[jj].1, k, l)]
                        0 <= jj < m2.len() && 0 <= k < subs_of(m2[jj].1).len()
                            && 0 <= l < group_of(subs_of(m2[jj].1)[k].1).len()
                        implies grouped_listed(list2, m2[jj].0, sub_key(m2[jj].1, k), group_key(m2[jj].1, k, l)) by {
                        if jj != j {
                            assert(m2[jj] == m[jj]);
                            assert(grouped_listed(list, m[jj].0, sub_key(m[jj].1, k), group_key(m[jj].1, k, l)));
                        } else if k < sm.len() {
                            assert(sm2[k] == sm[k]);
                            assert(grouped_listed(list, m[jj].0, sub_key(m[jj].1, k), group_key(m[jj].1, k, l)));
                        } else {
                            assert(l == 0);
                        }
                    }
                    assert forall|jj: int| 0 <= jj < m2.len() implies wf_entry(#[trigger] m2[jj].1) by {
                        if jj != j {
                            assert(m2[jj] == m[jj]);
                        }
                    }
                    assert(represents(m2, list2));
                } else {
                    let k = seq_key_pos(sm, g);
                    assert(sub_key(m[j].1, k) == g);
                    assert(sub_listed(list, m[j].0, sub_key(m[j].1, k)));
                    let iu = choose|i: int| 0 <= i < list.len() && under_sub(#[trigger] list[i].0, n, g);
                    lemma_seq_get_index(sm, k);
                    match sm[k].1 {
                        SubEntryView::Subcommand(_) => {
                            lemma_under_subs(m, list, j, iu);
                            assert(paths_clash(list[iu].0, p));
                        },
                        SubEntryView::Group(gm) => {
                            assert(wf_sub_entry(sm[k].1));
                            lemma_single_group(gm, n, g, y);
                            if seq_has_key(gm, t) {
                                let l = seq_key_pos(gm, t);
                                assert(group_key(m[j].1, k, l) == t);
                                assert(grouped_listed(list, m[j].0, sub_key(m[j].1, k), group_key(m[j].1, k, l)));
                                let i = choose|i: int| 0 <= i < list.len() && #[trigger] list[i].0 == PathView::Grouped(n, g, t);
                                assert(paths_clash(list[i].0, p));
                            } else {
                                let gm2 = gm.push(y);
                                let sm2 = sm.update(k, (g, SubEntryView::Group(gm2)));
                                let e2 = EntryView::Subcommands(sm2);
                                let m2 = m.update(j, (n, e2));
                                assert forall|i: int| 0 <= i < list.len() implies !paths_clash(#[trigger] list[i].0, p) by {
                                    if path_name(list[i].0) == n {
                                        lemma_under_subs(m, list, j, i);
                                        if path_sub_key(list[i].0) == g {
                                            lemma_seq_get_index(sm, k);
                                        }
                                    }
                                }
                                lemma_seq_get_push(gm, y, t);
                                lemma_seq_get_update(sm, k, (g, SubEntryView::Group(gm2)), g);
                                assert(wf_subs(sm2)) by {
                                    assert forall|kk: int| 0 <= kk < sm2.len() implies wf_sub_entry(#[trigger] sm2[kk].1) by {
                                        if kk != k {
                                            assert(sm2[kk] == sm[kk]);
                                        }
                                    }
                                }
                                lemma_seq_keys_distinct_update(m, j, (n, e2));
                                assert forall|i: int| 0 <= i < list2.len() implies lookup(m2, #[trigger] list2[i].0) == Some(list2[i].1) by {
                                    lemma_lookup_update(m, j, (n, e2), list2[i].0);
                                    if i < list.len() {
                                        assert(list2[i] == list[i]);
                                        if path_name(list[i].0) == n {
                                            lemma_under_subs(m, list, j, i);
                                            lemma_seq_get_update(sm, k, (g, SubEntryView::Group(gm2)), path_sub_key(list[i].0));
                                            match list[i].0 {
                                                PathView::Grouped(_, _, u) => {
                                                    lemma_seq_get_push(gm, y, u);
                                                },
                                                _ => {},
                                            }
                                        }
                                    }
                                }
                                assert forall|jj: int| 0 <= jj < m2.len() implies name_listed(list2, #[trigger] m2[jj].0) by {
                                    assert(m2[jj].0 == m[jj].0);
                                    assert(name_listed(list, m[jj].0));
                                }
                                assert forall|jj: int, kk: int|
                                    #![trigger sub_key(m2[jj].1, kk)]
                                    0 <= jj < m2.len() && 0 <= kk < subs_of(m2[jj].1).len()
                                    implies sub_listed(list2, m2[jj].0, sub_key(m2[jj].1, kk)) by {
                                    if jj != j {
                                        assert(m2[jj] == m[jj]);
                                    } else {
                                        assert(sm2[kk].0 == sm[kk].0);
                                    }
                                    assert(sub_listed(list, m[jj].0, sub_key(m[jj].1, kk)));
                                }
                                assert forall|jj: int, kk: int, l: int|
                                    #![trigger group_key(m2[jj].1, kk, l)]
                                    0 <= jj < m2.len() && 0 <= kk < subs_of(m2[jj].1).len()
                                        && 0 <= l < group_of(subs_of(m2[jj].1)[kk].1).len()
                                    implies grouped_listed(list2, m2[jj].0, sub_key(m2[jj].1, kk), group_key(m2[jj].1, kk, l)) by {
                                    if jj != j {
                                        assert(m2[jj] == m[jj]);
                                        assert(grouped_listed(list, m[jj].0, sub_key(m[jj].1, kk), group_key(m[jj].1, kk, l)));
                                    } else if kk != k {
                                        assert(sm2[kk] == sm[kk]);
                                        assert(grouped_listed(list, m[jj].0, sub_key(m[jj].1, kk), group_key(m[jj].1, kk, l)));
                                    } else if l < gm.len() {
                                        assert(gm2[l] == gm[l]);
                                        assert(grouped_listed(list, m[jj].0, sub_key(m[jj].1, kk), group_key(m[jj].1, kk, l)));
                                    }
                                }
                                assert forall|jj: int| 0 <= jj < m2.len() implies wf_entry(#[trigger] m2[jj].1) by {
                                    if jj != j {
                                        assert(m2[jj] == m[jj]);
                                    }
                                }
                                assert(represents(m2, list2));
                            }
                        },
                    }
                }
            },
        }
    }
}

/// Adding one path and its command, whatever its kind.
proof fn lemma_step<C>(m: Seq<(Seq<char>, EntryView<C>)>, list: Seq<(PathView, C)>, p: PathView, c: C)
    requires
        represents(m, list),
    ensures
        ({
            let r = add_entry_spec(m, path_entry(p, c).0, path_entry(p, c).1);
            &&& r is Ok <==> forall|i: int| 0 <= i < list.len() ==> !paths_clash(#[trigger] list[i].0, p)
            &&& r matches Ok(m2) ==> represents(m2, list.push((p, c)))
        }),
{
    match p {
        PathView::Command(n) => lemma_step_command(m, list, n, c),
        PathView::Subcommand(n, s) => lemma_step_subcommand(m, list, n, s, c),
        PathView::Grouped(n, g, t) => lemma_step_grouped(m, list, n, g, t, c),
    }
}

/// Adding the paths of `rest` after those of `done`.
proof fn lemma_fold<C>(m: Seq<(Seq<char>, EntryView<C>)>, done: Seq<(PathView, C)>, rest: Seq<(PathView, C)>)
    requires
        represents(m, done),
        no_clashes(done),
    ensures
        merge_entries_spec(m, path_entries(rest)) is Ok <==> no_clashes(done + rest),
        merge_entries_spec(m, path_entries(rest)) matches Ok(m2) ==> represents(m2, done + rest),
    decreases rest.len(),
{
    if rest.len() == 0 {
        assert(done + rest =~= done);
    } else {
        let x = rest[0];
        let es = path_entries(rest);
        assert(es[0] == path_entry(x.0, x.1));
        assert(es.drop_first() =~= path_entries(rest.drop_first()));
        lemma_step(m, done, x.0, x.1);
        let all = done + rest;
        match add_entry_spec(m, path_entry(x.0, x.1).0, path_entry(x.0, x.1).1) {
            Ok(m2) => {
                let done2 = done.push(x);
                assert forall|i: int, j: int| 0 <= i < j < done2.len() implies !paths_clash(#[trigger] done2[i].0, #[trigger] done2[j].0) by {
                    if j < done.len() {
                        assert(done2[i] == done[i] && done2[j] == done[j]);
                    } else {
                        assert(done2[i] == done[i]);
                    }
                }
                assert(done2 + rest.drop_first() =~= all);
                lemma_fold(m2, done2, rest.drop_first());
            },
            Err(_) => {
                let i = choose|i: int| 0 <= i < done.len() && paths_clash(#[trigger] done[i].0, x.0);
                assert(all[i] == done[i]);
                assert(all[done.len() as int] == x);
                assert(!no_clashes(all));
            },
        }
    }
}

/// The empty map holds no paths.
proof fn lemma_empty_represents<C>()
    ensures
        represents(Seq::<(Seq<char>, EntryView<C>)>::empty(), Seq::<(PathView, C)>::empty()),
{
}

/// Building a command map from a list of paths and commands succeeds exactly
/// when no two paths of the list clash: no path occurs twice, and no name is
/// both a command and the parent of a subcommand or group.
pub proof fn lemma_build_succeeds_iff_no_clashes<C>(list: Seq<(PathView, C)>)
    ensures
        merge_entries_spec(Seq::empty(), path_entries(list)) is Ok <==> no_clashes(list),
{
    lemma_empty_represents::<C>();
    lemma_fold(Seq::empty(), Seq::empty(), list);
    assert(Seq::<(PathView, C)>::empty() + list =~= list);
}

/// In a command map built from a list, each path of the list finds its own
/// command, and a path finds a command only if the list has it.
pub proof fn lemma_build_finds_each_command<C>(list: Seq<(PathView, C)>)
    ensures
        merge_entries_spec(Seq::empty(), path_entries(list)) matches Ok(m) ==> {
            &&& forall|i: int| 0 <= i < list.len() ==> lookup(m, #[trigger] list[i].0) == Some(list[i].1)
            &&& forall|p: PathView| #[trigger] lookup(m, p) is Some ==> exists|i: int| 0 <= i < list.len() && list[i].0 == p
        },
{
    lemma_empty_represents::<C>();
    lemma_fold(Seq::empty(), Seq::empty(), list);
    assert(Seq::<(PathView, C)>::empty() + list =~= list);
    if let Ok(m) = merge_entries_spec(Seq::empty(), path_entries(list)) {
        assert forall|p: PathView| #[trigger] lookup(m, p) is Some implies exists|i: int| 0 <= i < list.len() && list[i].0 == p by {
            lemma_found_is_listed(m, list, p);
        }
    }
}

/// What a map that stands for a list finds at a path, the list holds.
proof fn lemma_found_is_listed<C>(m: Seq<(Seq<char>, EntryView<C>)>, list: Seq<(PathView, C)>, p: PathView)
    requires
        represents(m, list),
        lookup(m, p) is Some,
    ensures
        exists|i: int| 0 <= i < list.len() && list[i].0 == p,
{
    let n = path_name(p);
    let j = seq_key_pos(m, n);
    lemma_seq_key_pos(m, j);
    assert(name_listed(list, m[j].0));
    let iw = choose|i: int| 0 <= i < list.len() && path_name(#[trigger] list[i].0) == m[j].0;
    match m[j].1 {
        EntryView::Command(_) => {
            lemma_under_command(m, list, j, iw);
            assert(list[iw].0 == p);
        },
        EntryView::Subcommands(sm) => {
            let key = path_sub_key(p);
            let k = seq_key_pos(sm, key);
            assert(wf_entry(m[j].1));
            lemma_seq_key_pos(sm, k);
            assert(sub_key(m[j].1, k) == key);
            assert(sub_listed(list, m[j].0, sub_key(m[j].1, k)));
            let iu = choose|i: int| 0 <= i < list.len() && under_sub(#[trigger] list[i].0, n, key);
            match p {
                PathView::Command(_) => {},
                PathView::Subcommand(_, _) => {
                    lemma_under_subs(m, list, j, iu);
                    assert(list[iu].0 == p);
                },
                PathView::Grouped(_, _, t) => {
                    let gm = group_of(sm[k].1);
                    assert(wf_sub_entry(sm[k].1));
                    let l = seq_key_pos(gm, t);
                    lemma_seq_key_pos(gm, l);
                    assert(group_key(m[j].1, k, l) == t);
                    assert(grouped_listed(list, m[j].0, sub_key(m[j].1, k), group_key(m[j].1, k, l)));
                },
            }
        },
    }
}


// ---------------------------------------------------------------------------
// What merging keeps.

/// `r` is what joining two lookups that found `a` and `b` gives: what either
/// found, it finds the same, and it finds nothing that neither found.
pub open spec fn joins<C>(a: Option<C>, b: Option<C>, r: Option<C>) -> bool {
    &&& a is Some ==> r == a
    &&& b is Some ==> r == b
    &&& r is Some ==> (a is Some || b is Some)
}

/// The command found at path `p` among the subcommands `s` of its command.
pub open spec fn subs_lookup<C>(s: Seq<(Seq<char>, SubEntryView<C>)>, p: PathView) -> Option<C> {
    match seq_get(s, path_sub_key(p)) {
        Some(e) => sub_entry_lookup(e, p),
        None => None,
    }
}

/// Dropping the first entry of a sequence with distinct keys loses exactly
/// its key.
proof fn lemma_seq_get_drop_first<K, V>(s: Seq<(K, V)>, k: K)
    requires
        seq_keys_distinct(s),
        s.len() > 0,
    ensures
        seq_keys_distinct(s.drop_first()),
        seq_get(s.drop_first(), k) == if k == s[0].0 {
            None
        } else {
            seq_get(s, k)
        },
{
    let t = s.drop_first();
    assert forall|a: int, b: int| 0 <= a < t.len() && 0 <= b < t.len() && a != b implies #[trigger] t[a].0
        != #[trigger] t[b].0 by {
        assert(t[a] == s[a + 1] && t[b] == s[b + 1]);
    }
    if seq_has_key(t, k) {
        let i = seq_key_pos(t, k);
        assert(t[i] == s[i + 1]);
        if k == s[0].0 {
            assert(s[i + 1].0 == s[0].0);
        } else {
            assert(s[i + 1].0 == k);
            lemma_seq_key_pos(s, i + 1);
        }
    } else if k != s[0].0 && seq_has_key(s, k) {
        let j = seq_key_pos(s, k);
        assert(j != 0);
        assert(t[j - 1] == s[j]);
    }
}

/// Merging a group keeps every command of both groups under its name, and
/// adds nothing else.
proof fn lemma_merge_group_joins<C>(
    cur: Seq<(Seq<char>, C)>,
    name: Seq<char>,
    group: Seq<char>,
    new: Seq<(Seq<char>, C)>,
)
    requires
        seq_keys_distinct(cur),
        seq_keys_distinct(new),
    ensures
        merge_group_spec(cur, name, group, new) matches Ok(r) ==> seq_keys_distinct(r) && forall|k: Seq<char>|
            #![trigger seq_get(r, k)]
            #![trigger seq_get(cur, k)]
            #![trigger seq_get(new, k)]
            joins(seq_get(cur, k), seq_get(new, k), seq_get(r, k)),
    decreases new.len(),
{
    if new.len() > 0 && !seq_has_key(cur, new[0].0) {
        let x = new[0];
        let rest = new.drop_first();
        lemma_seq_keys_distinct_push(cur, x);
        lemma_seq_get_drop_first(new, x.0);
        lemma_merge_group_joins(cur.push(x), name, group, rest);
        if let Ok(r) = merge_group_spec(cur, name, group, new) {
            assert forall|k: Seq<char>| #![trigger seq_get(r, k)] #![trigger seq_get(cur, k)] #![trigger seq_get(new, k)]
                joins(seq_get(cur, k), seq_get(new, k), seq_get(r, k)) by {
                lemma_seq_get_push(cur, x, k);
                lemma_seq_get_drop_first(new, k);
                lemma_seq_get_index(new, 0);
                assert(joins(seq_get(cur.push(x), k), seq_get(rest, k), seq_get(r, k)));
            }
        }
    }
}

/// Merging two entries of a subcommand keeps what either finds.
proof fn lemma_merge_sub_entry_joins<C>(cur: SubEntryView<C>, name: Seq<char>, sub: Seq<char>, new: SubEntryView<C>)
    requires
        wf_sub_entry(cur),
        wf_sub_entry(new),
    ensures
        merge_sub_entry_spec(cur, name, sub, new) matches Ok(e) ==> wf_sub_entry(e) && forall|p: PathView|
            #![trigger sub_entry_lookup(e, p)]
            joins(sub_entry_lookup(cur, p), sub_entry_lookup(new, p), sub_entry_lookup(e, p)),
{
    if let (SubEntryView::Group(g), SubEntryView::Group(ng)) = (cur, new) {
        lemma_merge_group_joins(g, name, sub, ng);
        if let Ok(e) = merge_sub_entry_spec(cur, name, sub, new) {
            assert forall|p: PathView| #![trigger sub_entry_lookup(e, p)] joins(
                sub_entry_lookup(cur, p),
                sub_entry_lookup(new, p),
                sub_entry_lookup(e, p),
            ) by {
                if let PathView::Grouped(_, _, s) = p {
                    assert(seq_get(g, s) == seq_get(g, s));
                }
            }
        }
    }
}

/// Merging the subcommands of a command keeps every command found among
/// either, and adds nothing else.
proof fn lemma_merge_subs_joins<C>(
    cur: Seq<(Seq<char>, SubEntryView<C>)>,
    name: Seq<char>,
    new: Seq<(Seq<char>, SubEntryView<C>)>,
)
    requires
        wf_subs(cur),
        wf_subs(new),
    ensures
        merge_subs_spec(cur, name, new) matches Ok(r) ==> wf_subs(r) && forall|p: PathView|
            #![trigger subs_lookup(r, p)]
            #![trigger subs_lookup(cur, p)]
            #![trigger subs_lookup(new, p)]
            joins(subs_lookup(cur, p), subs_lookup(new, p), subs_lookup(r, p)),
    decreases new.len(),
{
    if new.len() > 0 {
        let x = new[0];
        let rest = new.drop_first();
        lemma_seq_get_drop_first(new, x.0);
        assert(wf_sub_entry(new[0].1));
        assert forall|j: int| 0 <= j < rest.len() implies wf_sub_entry(#[trigger] rest[j].1) by {
            assert(rest[j] == new[j + 1]);
        }
        if seq_has_key(cur, x.0) {
            let i = seq_key_pos(cur, x.0);
            assert(wf_sub_entry(cur[i].1));
            lemma_merge_sub_entry_joins(cur[i].1, name, x.0, x.1);
            if let Ok(e) = merge_sub_entry_spec(cur[i].1, name, x.0, x.1) {
                let cur2 = cur.update(i, (x.0, e));
                lemma_seq_keys_distinct_update(cur, i, (x.0, e));
                assert forall|j: int| 0 <= j < cur2.len() implies wf_sub_entry(#[trigger] cur2[j].1) by {
                    if j != i {
                        assert(cur2[j] == cur[j]);
                    }
                }
                lemma_merge_subs_joins(cur2, name, rest);
                if let Ok(r) = merge_subs_spec(cur, name, new) {
                    assert forall|p: PathView|
                        #![trigger subs_lookup(r, p)]
                        #![trigger subs_lookup(cur, p)]
                        #![trigger subs_lookup(new, p)]
                        joins(subs_lookup(cur, p), subs_lookup(new, p), subs_lookup(r, p)) by {
                        let k = path_sub_key(p);
                        lemma_seq_get_update(cur, i, (x.0, e), k);
                        lemma_seq_get_drop_first(new, k);
                        lemma_seq_get_index(new, 0);
                        lemma_seq_get_index(cur, i);
                        assert(joins(subs_lookup(cur2, p), subs_lookup(rest, p), subs_lookup(r, p)));
                        assert(joins(sub_entry_lookup(cur[i].1, p), sub_entry_lookup(x.1, p), sub_entry_lookup(e, p)));
                    }
                }
            }
        } else {
            let cur2 = cur.push(x);
            lemma_seq_keys_distinct_push(cur, x);
            assert forall|j: int| 0 <= j < cur2.len() implies wf_sub_entry(#[trigger] cur2[j].1) by {
                if j < cur.len() {
                    assert(cur2[j] == cur[j]);
                }
            }
            lemma_merge_subs_joins(cur2, name, rest);
            if let Ok(r) = merge_subs_spec(cur, name, new) {
                assert forall|p: PathView|
                    #![trigger subs_lookup(r, p)]
                    #![trigger subs_lookup(cur, p)]
                    #![trigger subs_lookup(new, p)]
                    joins(subs_lookup(cur, p), subs_lookup(new, p), subs_lookup(r, p)) by {
                    let k = path_sub_key(p);
                    lemma_seq_get_push(cur, x, k);
                    lemma_seq_get_drop_first(new, k);
                    lemma_seq_get_index(new, 0);
                    assert(joins(subs_lookup(cur2, p), subs_lookup(rest, p), subs_lookup(r, p)));
                }
            }
        }
    }
}

/// Merging two entries of a command keeps what either finds.
proof fn lemma_merge_entry_joins<C>(cur: EntryView<C>, name: Seq<char>, new: EntryView<C>)
    requires
        wf_entry(cur),
        wf_entry(new),
    ensures
        merge_entry_spec(cur, name, new) matches Ok(e) ==> wf_entry(e) && forall|p: PathView|
            #![trigger entry_lookup(e, p)]
            joins(entry_lookup(cur, p), entry_lookup(new, p), entry_lookup(e, p)),
{
    if let (EntryView::Subcommands(s), EntryView::Subcommands(ns)) = (cur, new) {
        lemma_merge_subs_joins(s, name, ns);
        if let Ok(e) = merge_entry_spec(cur, name, new) {
            assert forall|p: PathView| #![trigger entry_lookup(e, p)] joins(
                entry_lookup(cur, p),
                entry_lookup(new, p),
                entry_lookup(e, p),
            ) by {
                if !(p is Command) {
                    let m = e->Subcommands_0;
                    assert(joins(subs_lookup(s, p), subs_lookup(ns, p), subs_lookup(m, p)));
                }
            }
        }
    }
}

/// Merging entries into a map keeps every command found in either, and adds
/// nothing else.
proof fn lemma_merge_entries_joins<C>(m: Seq<(Seq<char>, EntryView<C>)>, es: Seq<(Seq<char>, EntryView<C>)>)
    requires
        wf_map(m),
        wf_map(es),
    ensures
        merge_entries_spec(m, es) matches Ok(r) ==> wf_map(r) && forall|p: PathView|
            #![trigger lookup(r, p)]
            #![trigger lookup(m, p)]
            #![trigger lookup(es, p)]
            joins(lookup(m, p), lookup(es, p), lookup(r, p)),
    decreases es.len(),
{
    if es.len() > 0 {
        let x = es[0];
        let rest = es.drop_first();
        lemma_seq_get_drop_first(es, x.0);
        assert(wf_entry(es[0].1));
        assert forall|j: int| 0 <= j < rest.len() implies wf_entry(#[trigger] rest[j].1) by {
            assert(rest[j] == es[j + 1]);
        }
        if seq_has_key(m, x.0) {
            let i = seq_key_pos(m, x.0);
            assert(wf_entry(m[i].1));
            lemma_merge_entry_joins(m[i].1, x.0, x.1);
            if let Ok(e) = merge_entry_spec(m[i].1, x.0, x.1) {
                let m2 = m.update(i, (x.0, e));
                lemma_seq_keys_distinct_update(m, i, (x.0, e));
                assert forall|j: int| 0 <= j < m2.len() implies wf_entry(#[trigger] m2[j].1) by {
                    if j != i {
                        assert(m2[j] == m[j]);
                    }
                }
                assert(add_entry_spec(m, x.0, x.1) == Ok::<Seq<(Seq<char>, EntryView<C>)>, MergeErrorView>(m2));
                lemma_merge_entries_joins(m2, rest);
                if let Ok(r) = merge_entries_spec(m, es) {
                    assert forall|p: PathView|
                        #![trigger lookup(r, p)]
                        #![trigger lookup(m, p)]
                        #![trigger lookup(es, p)]
                        joins(lookup(m, p), lookup(es, p), lookup(r, p)) by {
                        let k = path_name(p);
                        lemma_seq_get_update(m, i, (x.0, e), k);
                        lemma_seq_get_drop_first(es, k);
                        lemma_seq_get_index(es, 0);
                        lemma_seq_get_index(m, i);
                        assert(joins(lookup(m2, p), lookup(rest, p), lookup(r, p)));
                        assert(joins(entry_lookup(m[i].1, p), entry_lookup(x.1, p), entry_lookup(e, p)));
                    }
                }
            }
        } else {
            let m2 = m.push(x);
            lemma_seq_keys_distinct_push(m, x);
            assert forall|j: int| 0 <= j < m2.len() implies wf_entry(#[trigger] m2[j].1) by {
                if j < m.len() {
                    assert(m2[j] == m[j]);
                }
            }
            assert(add_entry_spec(m, x.0, x.1) == Ok::<Seq<(Seq<char>, EntryView<C>)>, MergeErrorView>(m2));
            lemma_merge_entries_joins(m2, rest);
            if let Ok(r) = merge_entries_spec(m, es) {
                assert forall|p: PathView|
                    #![trigger lookup(r, p)]
                    #![trigger lookup(m, p)]
                    #![trigger lookup(es, p)]
                    joins(lookup(m, p), lookup(es, p), lookup(r, p)) by {
                    let k = path_name(p);
                    lemma_seq_get_push(m, x, k);
                    lemma_seq_get_drop_first(es, k);
                    lemma_seq_get_index(es, 0);
                    assert(joins(lookup(m2, p), lookup(rest, p), lookup(r, p)));
                }
            }
        }
    }
}

/// Merging two command maps keeps every command of both: each path that
/// either map finds a command at finds the same command in the merged map,
/// and the merged map finds a command only at a path where one of them does.
pub proof fn lemma_merge_keeps_every_path<C>(a: Seq<(Seq<char>, EntryView<C>)>, b: Seq<(Seq<char>, EntryView<C>)>)
    requires
        wf_map(a),
        wf_map(b),
    ensures
        merge_entries_spec(a, b) matches Ok(m) ==> {
            &&& wf_map(m)
            &&& forall|p: PathView| #[trigger] lookup(a, p) is Some ==> lookup(m, p) == lookup(a, p)
            &&& forall|p: PathView| #[trigger] lookup(b, p) is Some ==> lookup(m, p) == lookup(b, p)
            &&& forall|p: PathView| #[trigger] lookup(m, p) is Some ==> lookup(a, p) is Some || lookup(b, p) is Some
        },
{
    lemma_merge_entries_joins(a, b);
}

} // verus!
