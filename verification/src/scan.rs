//! The snapshot directory scanner: classifies directory entries by the prefix
//! before the first `.` in their name and keeps each group sorted newest
//! first. Reading the directory happens outside the library; this module is
//! given the entry names and produces the grouped, ordered listing.

use vstd::prelude::*;
use vstd::multiset::Multiset;
use vstd::string::StrSliceExecFns;
use vstd::string::StringExecFns;

use crate::strkit::contains_char;
use crate::strkit::find_char;
use crate::strkit::first_index_from;
use crate::strkit::lemma_first_index_contains;
use crate::strkit::lemma_first_index_from;
use crate::strkit::lemma_lex_asymmetric;
use crate::strkit::lemma_lex_connected;
use crate::strkit::lemma_lex_transitive;
use crate::strkit::lex_leq;
use crate::strkit::lex_lt;
use crate::strkit::lex_lt_exec;
use crate::strkit::str_eq_exec;

verus! {

broadcast use
    vstd::multiset::group_multiset_axioms,
    vstd::seq_lib::group_to_multiset_ensures,
    vstd::seq_lib::group_filter_ensures;

/// A directory entry counts as a snapshot when its name starts with `@`
/// and contains a `.` separating the group prefix from the timestamp token.
pub open spec fn is_snapshot_name(s: Seq<char>) -> bool {
    s.len() > 0 && s[0] == '@' && contains_char(s, '.')
}

/// The name of the root subvolume, which the listing shows first.
pub open spec fn root_prefix() -> Seq<char> {
    seq!['@']
}

/// The part of a name before its first `.`; the whole name when it has none.
pub open spec fn prefix_of(s: Seq<char>) -> Seq<char> {
    s.subrange(0, first_index_from(s, '.', 0))
}

/// Decides whether a directory entry name counts as a snapshot.
pub fn is_snapshot_exec(name: &str) -> (r: bool)
    ensures
        r == is_snapshot_name(name@),
{
    let len = name.unicode_len();
    if len == 0 {
        return false;
    }
    if name.get_char(0) != '@' {
        return false;
    }
    let dot = find_char(name, '.');
    proof {
        lemma_first_index_contains(name@, '.');
    }
    dot.is_some()
}

/// Extracts the group prefix of a name.
pub fn prefix_of_exec(name: &str) -> (r: String)
    ensures
        r@ == prefix_of(name@),
{
    proof {
        lemma_first_index_from(name@, '.', 0);
    }
    match find_char(name, '.') {
        Some(i) => {
            let s = name.substring_char(0, i);
            String::from_str(s)
        },
        None => {
            let r = String::from_str(name);
            proof {
                assert(name@.subrange(0, name@.len() as int) =~= name@);
            }
            r
        },
    }
}

/// Group ordering: the root subvolume's group first, the rest ascending.
pub open spec fn prefix_lt(a: Seq<char>, b: Seq<char>) -> bool {
    if a == root_prefix() && b != root_prefix() {
        true
    } else if a != root_prefix() && b == root_prefix() {
        false
    } else {
        lex_lt(a, b)
    }
}

pub proof fn lemma_prefix_lt_connected(a: Seq<char>, b: Seq<char>)
    ensures
        prefix_lt(a, b) || prefix_lt(b, a) || a == b,
{
    lemma_lex_connected(a, b);
}

pub proof fn lemma_prefix_lt_asymmetric(a: Seq<char>, b: Seq<char>)
    ensures
        prefix_lt(a, b) ==> !prefix_lt(b, a),
        !prefix_lt(a, a),
{
    lemma_lex_asymmetric(a, b);
    lemma_lex_asymmetric(a, a);
}

pub proof fn lemma_prefix_lt_transitive(a: Seq<char>, b: Seq<char>, c: Seq<char>)
    ensures
        prefix_lt(a, b) && prefix_lt(b, c) ==> prefix_lt(a, c),
{
    lemma_lex_transitive(a, b, c);
    lemma_lex_asymmetric(a, b);
    lemma_lex_asymmetric(b, c);
}

/// Decides `prefix_lt` on strings.
pub fn prefix_lt_exec(a: &str, b: &str) -> (r: bool)
    ensures
        r == prefix_lt(a@, b@),
{
    proof {
        reveal_strlit("@");
        assert("@"@ =~= root_prefix());
    }
    let a_is_root = str_eq_exec(a, "@");
    let b_is_root = str_eq_exec(b, "@");
    if a_is_root && !b_is_root {
        true
    } else if !a_is_root && b_is_root {
        false
    } else {
        lex_lt_exec(a, b)
    }
}

/// One column of the listing: a prefix together with its snapshots,
/// newest (lexicographically greatest) name first.
pub struct Group {
    pub prefix: String,
    pub snapshots: Vec<String>,
}

/// Descending lexicographic order, the invariant of a group's snapshot list.
pub open spec fn sorted_desc(s: Seq<String>) -> bool {
    forall|i: int, j: int| 0 <= i < j < s.len() ==> lex_leq(#[trigger] s[j]@, #[trigger] s[i]@)
}

/// A well-formed group: non-empty, sorted newest first, and every member a
/// snapshot name carrying the group's prefix.
pub open spec fn group_wf(g: Group) -> bool {
    &&& g.snapshots@.len() > 0
    &&& sorted_desc(g.snapshots@)
    &&& forall|k: int|
        0 <= k < g.snapshots@.len() ==> is_snapshot_name(#[trigger] g.snapshots@[k]@)
            && prefix_of(g.snapshots@[k]@) == g.prefix@
}

/// The groups of a listing are strictly ordered by `prefix_lt`.
pub open spec fn groups_ordered(gs: Seq<Group>) -> bool {
    forall|i: int, j: int|
        0 <= i < j < gs.len() ==> prefix_lt(#[trigger] gs[i].prefix@, #[trigger] gs[j].prefix@)
}

/// All names held across a sequence of groups, as a multiset.
pub open spec fn members_of(gs: Seq<Group>) -> Multiset<String>
    decreases gs.len(),
{
    if gs.len() == 0 {
        Multiset::empty()
    } else {
        members_of(gs.drop_last()).add(gs.last().snapshots@.to_multiset())
    }
}

/// The predicate selecting snapshot names out of a listing.
pub open spec fn snapshot_pred() -> spec_fn(String) -> bool {
    |n: String| is_snapshot_name(n@)
}

/// The snapshot names among a listing's entries, in listing order.
pub open spec fn snapshot_entries(names: Seq<String>) -> Seq<String> {
    names.filter(snapshot_pred())
}

/// A whole scan result is well formed.
pub open spec fn scan_wf(gs: Seq<Group>) -> bool {
    &&& groups_ordered(gs)
    &&& forall|i: int| 0 <= i < gs.len() ==> group_wf(#[trigger] gs[i])
}

proof fn lemma_members_of_insert(gs: Seq<Group>, i: int, g: Group)
    requires
        0 <= i <= gs.len(),
    ensures
        members_of(gs.insert(i, g)) =~= members_of(gs).add(g.snapshots@.to_multiset()),
    decreases gs.len(),
{
    let t = gs.insert(i, g);
    gs.insert_ensures(i, g);
    if i == gs.len() {
        assert(t.drop_last() =~= gs);
        assert(t.last() == g);
    } else {
        assert(t.last() == gs.last());
        assert(t.drop_last() =~= gs.drop_last().insert(i, g));
        lemma_members_of_insert(gs.drop_last(), i, g);
    }
}

proof fn lemma_members_of_update(gs: Seq<Group>, i: int, g: Group)
    requires
        0 <= i < gs.len(),
    ensures
        members_of(gs.update(i, g)).add(gs[i].snapshots@.to_multiset()) =~= members_of(gs).add(
            g.snapshots@.to_multiset(),
        ),
    decreases gs.len(),
{
    let t = gs.update(i, g);
    if i == gs.len() - 1 {
        assert(t.drop_last() =~= gs.drop_last());
        assert(t.last() == g);
    } else {
        assert(t.last() == gs.last());
        assert(t.drop_last() =~= gs.drop_last().update(i, g));
        lemma_members_of_update(gs.drop_last(), i, g);
        assert(gs.drop_last()[i] == gs[i]);
        let lhs_sub = members_of(gs.drop_last().update(i, g));
        let rest = gs.last().snapshots@.to_multiset();
        assert(members_of(t) == lhs_sub.add(rest));
        assert(members_of(gs) == members_of(gs.drop_last()).add(rest));
        assert forall|x: String|
            members_of(t).add(gs[i].snapshots@.to_multiset()).count(x) == members_of(gs).add(
                g.snapshots@.to_multiset(),
            ).count(x) by {
            assert(lhs_sub.add(gs[i].snapshots@.to_multiset()).count(x) == members_of(
                gs.drop_last(),
            ).add(g.snapshots@.to_multiset()).count(x));
        }
    }
}

proof fn lemma_multiset_add_cancel<T>(a: Multiset<T>, b: Multiset<T>, c: Multiset<T>)
    requires
        a.add(c) == b.add(c),
    ensures
        a =~= b,
{
    assert forall|x: T| a.count(x) == b.count(x) by {
        assert(a.add(c).count(x) == b.add(c).count(x));
        assert(a.add(c).count(x) == a.count(x) + c.count(x));
        assert(b.add(c).count(x) == b.count(x) + c.count(x));
    }
}

proof fn lemma_to_multiset_insert(s: Seq<String>, q: int, x: String)
    requires
        0 <= q <= s.len(),
    ensures
        s.insert(q, x).to_multiset() =~= s.to_multiset().insert(x),
{
    let t = s.insert(q, x);
    s.insert_ensures(q, x);
    assert(t[q] == x);
    assert(t.remove(q) =~= s);
    assert(s.to_multiset() =~= t.to_multiset().remove(x));
    assert(t.contains(x));
    assert(t.to_multiset().count(x) > 0);
    assert forall|y: String| t.to_multiset().count(y) == s.to_multiset().insert(x).count(y) by {
        assert(s.to_multiset().count(y) == t.to_multiset().remove(x).count(y));
    }
}

/// Filtering a single-element sequence.
proof fn lemma_filter_singleton(x: String, pred: spec_fn(String) -> bool)
    ensures
        pred(x) ==> seq![x].filter(pred) =~= seq![x],
        !pred(x) ==> seq![x].filter(pred) =~= Seq::<String>::empty(),
{
    reveal_with_fuel(Seq::filter, 2);
    assert(seq![x].drop_last() =~= Seq::<String>::empty());
    assert(seq![x].last() == x);
}

/// Inserting `x` at a position bounded below by larger entries and above by
/// smaller ones keeps a descending sequence descending.
proof fn lemma_sorted_insert(s: Seq<String>, q: int, x: String)
    requires
        sorted_desc(s),
        0 <= q <= s.len(),
        forall|k: int| 0 <= k < q ==> lex_leq(x@, #[trigger] s[k]@),
        forall|k: int| q <= k < s.len() ==> lex_leq(#[trigger] s[k]@, x@),
    ensures
        sorted_desc(s.insert(q, x)),
{
    let t = s.insert(q, x);
    s.insert_ensures(q, x);
    assert forall|i: int, j: int| 0 <= i < j < t.len() implies lex_leq(#[trigger] t[j]@, #[trigger] t[i]@) by {
        if i < q && j < q {
            assert(t[i] == s[i] && t[j] == s[j]);
        } else if i < q && j == q {
            assert(t[i] == s[i] && t[j] == x);
        } else if i < q && j > q {
            assert(t[i] == s[i] && t[j] == s[j - 1]);
        } else if i == q && j > q {
            assert(t[i] == x && t[j] == s[j - 1]);
        } else if i > q && j > q {
            assert(t[i] == s[i - 1] && t[j] == s[j - 1]);
        }
    }
}

/// Groups the snapshot names of a directory listing by prefix.
///
/// The result holds exactly the listing's snapshot names, each group under its
/// own prefix with its names newest first, and the groups ordered with the
/// root subvolume's group leading.
pub fn group_snapshots(names: &Vec<String>) -> (gs: Vec<Group>)
    ensures
        scan_wf(gs@),
        members_of(gs@) == snapshot_entries(names@).to_multiset(),
{
    let mut gs: Vec<Group> = Vec::new();
    proof {
        assert(names@.subrange(0, 0) =~= Seq::<String>::empty());
        assert(Seq::<String>::empty().filter(snapshot_pred()) =~= Seq::<String>::empty());
        assert(Seq::<String>::empty().to_multiset() =~= Multiset::<String>::empty());
    }
    let mut idx: usize = 0;
    while idx < names.len()
        invariant
            idx <= names@.len(),
            scan_wf(gs@),
            members_of(gs@) == names@.subrange(0, idx as int).filter(snapshot_pred()).to_multiset(),
        decreases names@.len() - idx,
    {
        let name: &String = &names[idx];
        let ghost prev = names@.subrange(0, idx as int);
        proof {
            assert(names@.subrange(0, idx + 1) =~= prev + seq![*name]);
            Seq::filter_distributes_over_add(prev, seq![*name], snapshot_pred());
            lemma_filter_singleton(*name, snapshot_pred());
        }
        if is_snapshot_exec(name.as_str()) {
            let prefix = prefix_of_exec(name.as_str());
            proof {
                assert(is_snapshot_name((*name)@));
                assert(snapshot_pred()(*name));
                assert((prev + seq![*name]).filter(snapshot_pred()) == prev.filter(snapshot_pred()) + seq![*name].filter(snapshot_pred()));
                assert(seq![*name].filter(snapshot_pred()) =~= seq![*name]);
                assert(prev.filter(snapshot_pred()) + seq![*name] =~= prev.filter(snapshot_pred()).push(*name));
                assert((prev + seq![*name]).filter(snapshot_pred()) =~= prev.filter(snapshot_pred()).push(*name));
            }
            insert_into_groups(&mut gs, prefix, name.clone());
        } else {
            proof {
                assert(!snapshot_pred()(*name));
                assert((prev + seq![*name]).filter(snapshot_pred()) == prev.filter(snapshot_pred()) + seq![*name].filter(snapshot_pred()));
                assert(seq![*name].filter(snapshot_pred()) =~= Seq::<String>::empty());
                assert(prev.filter(snapshot_pred()) + Seq::<String>::empty() =~= prev.filter(snapshot_pred()));
                assert((prev + seq![*name]).filter(snapshot_pred()) =~= prev.filter(snapshot_pred()));
            }
        }
        idx = idx + 1;
    }
    proof {
        assert(names@.subrange(0, names@.len() as int) =~= names@);
    }
    gs
}

/// Inserts one snapshot name into the grouped listing, keeping it well formed.
fn insert_into_groups(gs: &mut Vec<Group>, prefix: String, name: String)
    requires
        scan_wf(old(gs)@),
        is_snapshot_name(name@),
        prefix@ == prefix_of(name@),
    ensures
        scan_wf(final(gs)@),
        members_of(final(gs)@) == members_of(old(gs)@).insert(name),
{
    let ghost gs0 = gs@;
    // Find where this prefix belongs among the groups.
    let mut p: usize = 0;
    loop
        invariant_except_break
            scan_wf(gs@),
            gs@ == gs0,
            p <= gs@.len(),
            forall|k: int| 0 <= k < p ==> prefix_lt(#[trigger] gs@[k].prefix@, prefix@),
        ensures
            gs@ == gs0,
            p <= gs@.len(),
            forall|k: int| 0 <= k < p ==> prefix_lt(#[trigger] gs@[k].prefix@, prefix@),
            p < gs@.len() ==> !prefix_lt(gs@[p as int].prefix@, prefix@),
        decreases gs@.len() - p,
    {
        if p == gs.len() {
            break;
        }
        if !prefix_lt_exec(gs[p].prefix.as_str(), prefix.as_str()) {
            break;
        }
        p = p + 1;
    }
    let same = if p < gs.len() {
        str_eq_exec(gs[p].prefix.as_str(), prefix.as_str())
    } else {
        false
    };
    if same {
        // Insert into the existing group, keeping it sorted newest first.
        let mut g = gs.remove(p);
        let ghost snaps0 = g.snapshots@;
        proof {
            assert(group_wf(gs0[p as int]));
            assert(g == gs0[p as int]);
        }
        let mut q: usize = 0;
        loop
            invariant_except_break
                g.snapshots@ == snaps0,
                q <= snaps0.len(),
                forall|k: int| 0 <= k < q ==> !lex_lt(#[trigger] snaps0[k]@, name@),
            ensures
                g.snapshots@ == snaps0,
                q <= snaps0.len(),
                forall|k: int| 0 <= k < q ==> !lex_lt(#[trigger] snaps0[k]@, name@),
                q < snaps0.len() ==> lex_lt(snaps0[q as int]@, name@),
            decreases snaps0.len() - q,
        {
            if q == g.snapshots.len() {
                break;
            }
            if lex_lt_exec(g.snapshots[q].as_str(), name.as_str()) {
                break;
            }
            q = q + 1;
        }
        proof {
            assert forall|k: int| 0 <= k < q implies lex_leq(name@, #[trigger] snaps0[k]@) by {
                lemma_lex_connected(name@, snaps0[k]@);
            }
            assert forall|k: int| q <= k < snaps0.len() implies lex_leq(
                #[trigger] snaps0[k]@,
                name@,
            ) by {
                if k > q {
                    assert(lex_leq(snaps0[k]@, snaps0[q as int]@));
                    lemma_lex_transitive(snaps0[k]@, snaps0[q as int]@, name@);
                }
            }
            lemma_sorted_insert(snaps0, q as int, name);
            lemma_to_multiset_insert(snaps0, q as int, name);
        }
        g.snapshots.insert(q, name);
        let ghost g2 = g;
        gs.insert(p, g);
        proof {
            snaps0.insert_ensures(q as int, name);
            assert(g2.snapshots@ == snaps0.insert(q as int, name));
            assert forall|k: int|
                0 <= k < g2.snapshots@.len() implies is_snapshot_name(
                #[trigger] g2.snapshots@[k]@,
            ) && prefix_of(g2.snapshots@[k]@) == g2.prefix@ by {
                if k < q {
                    assert(g2.snapshots@[k] == snaps0[k]);
                } else if k == q {
                    assert(g2.snapshots@[k] == name);
                } else {
                    assert(g2.snapshots@[k] == snaps0[k - 1]);
                }
            }
            assert(group_wf(g2));
            assert(gs@ =~= gs0.update(p as int, g2));
            assert forall|i: int| 0 <= i < gs@.len() implies group_wf(#[trigger] gs@[i]) by {
                if i != p {
                    assert(gs@[i] == gs0[i]);
                }
            }
            assert forall|i: int, j: int|
                0 <= i < j < gs@.len() implies prefix_lt(
                #[trigger] gs@[i].prefix@,
                #[trigger] gs@[j].prefix@,
            ) by {
                assert(gs@[i].prefix@ == gs0[i].prefix@);
                assert(gs@[j].prefix@ == gs0[j].prefix@);
            }
            lemma_members_of_update(gs0, p as int, g2);
            assert(members_of(gs0.update(p as int, g2)).add(snaps0.to_multiset())
                =~= members_of(gs0).insert(name).add(snaps0.to_multiset()));
            lemma_multiset_add_cancel(
                members_of(gs0.update(p as int, g2)),
                members_of(gs0).insert(name),
                snaps0.to_multiset(),
            );
            assert(members_of(gs@) == members_of(gs0).insert(name));
        }
    } else {
        // Start a new group at the found position.
        proof {
            if p < gs0.len() {
                lemma_prefix_lt_connected(gs0[p as int].prefix@, prefix@);
            }
            assert forall|k: int| p <= k < gs0.len() implies prefix_lt(
                prefix@,
                #[trigger] gs0[k].prefix@,
            ) by {
                lemma_prefix_lt_connected(gs0[p as int].prefix@, prefix@);
                if k > p {
                    lemma_prefix_lt_transitive(prefix@, gs0[p as int].prefix@, gs0[k].prefix@);
                }
            }
        }
        let mut snapshots: Vec<String> = Vec::new();
        snapshots.push(name);
        let g = Group { prefix, snapshots };
        let ghost g2 = g;
        gs.insert(p, g);
        proof {
            gs0.insert_ensures(p as int, g2);
            assert(g2.snapshots@ =~= seq![name]);
            assert(seq![name].drop_last() =~= Seq::<String>::empty());
            assert(g2.snapshots@.to_multiset() =~= Multiset::<String>::empty().insert(name));
            assert(group_wf(g2));
            assert(gs@ =~= gs0.insert(p as int, g2));
            assert forall|i: int| 0 <= i < gs@.len() implies group_wf(#[trigger] gs@[i]) by {
                if i < p {
                    assert(gs@[i] == gs0[i]);
                } else if i > p {
                    assert(gs@[i] == gs0[i - 1]);
                }
            }
            assert forall|i: int, j: int|
                0 <= i < j < gs@.len() implies prefix_lt(
                #[trigger] gs@[i].prefix@,
                #[trigger] gs@[j].prefix@,
            ) by {
                if j < p {
                    assert(gs@[i] == gs0[i] && gs@[j] == gs0[j]);
                    assert(prefix_lt(gs0[i].prefix@, gs0[j].prefix@));
                } else if j == p {
                    assert(gs@[i] == gs0[i]);
                    assert(prefix_lt(gs0[i].prefix@, prefix@));
                } else if i == p {
                    assert(gs@[j] == gs0[j - 1]);
                    assert(prefix_lt(prefix@, gs0[j - 1].prefix@));
                } else if i < p {
                    assert(gs@[i] == gs0[i] && gs@[j] == gs0[j - 1]);
                    assert(prefix_lt(gs0[i].prefix@, prefix@));
                    assert(prefix_lt(prefix@, gs0[j - 1].prefix@));
                    lemma_prefix_lt_transitive(gs0[i].prefix@, prefix@, gs0[j - 1].prefix@);
                } else {
                    assert(gs@[i] == gs0[i - 1] && gs@[j] == gs0[j - 1]);
                    assert(prefix_lt(gs0[i - 1].prefix@, gs0[j - 1].prefix@));
                }
            }
            lemma_members_of_insert(gs0, p as int, g2);
            assert(members_of(gs@).count(name) == members_of(gs0).insert(name).count(name));
            assert(members_of(gs@) =~= members_of(gs0).insert(name));
        }
    }
}

/// Within a well-formed group, every entry compares at or below the first:
/// the lexicographically greatest name renders first.
pub proof fn lemma_newest_first(g: Group)
    requires
        group_wf(g),
    ensures
        forall|k: int|
            0 <= k < g.snapshots@.len() ==> lex_leq(#[trigger] g.snapshots@[k]@, g.snapshots@[0]@),
{
    assert forall|k: int|
        0 <= k < g.snapshots@.len() implies lex_leq(
        #[trigger] g.snapshots@[k]@,
        g.snapshots@[0]@,
    ) by {
        if k == 0 {
            assert(lex_leq(g.snapshots@[0]@, g.snapshots@[0]@));
        }
    }
}

} // verus!
