//! Maintenance planning: which snapshots a purge removes, which pool entries
//! a broken-subvolume cleanup removes, and how the outcome of the external
//! deletions is reported. The external `btrfs subvolume delete` calls happen
//! outside the library; this module decides what to delete and summarizes the
//! results it is handed back.

use vstd::prelude::*;
use vstd::string::StringExecFns;

use crate::scan::Group;
use crate::scan::group_wf;
use crate::scan::members_of;
use crate::scan::scan_wf;
use crate::scan::snapshot_entries;
use crate::scan::snapshot_pred;
use crate::strkit::contains_seq;
use crate::strkit::contains_str;

verus! {

broadcast use
    vstd::multiset::group_multiset_axioms,
    vstd::seq_lib::group_to_multiset_ensures,
    vstd::seq_lib::group_filter_ensures;

/// The marker carried by a live subvolume that a restore moved aside.
pub open spec fn broken_marker() -> Seq<char> {
    ".BROKEN"@
}

/// Every snapshot a purge deletes: within each group everything except the
/// first (newest) entry, in listing order.
pub open spec fn purge_plan_spec(gs: Seq<Group>) -> Seq<String>
    decreases gs.len(),
{
    if gs.len() == 0 {
        Seq::empty()
    } else {
        purge_plan_spec(gs.drop_last()) + gs.last().snapshots@.skip(1)
    }
}

/// Plans a purge over a grouped listing: for every group, keep the newest
/// snapshot and list the rest for deletion.
pub fn purge_plan(gs: &Vec<Group>) -> (r: Vec<String>)
    requires
        scan_wf(gs@),
    ensures
        r@ == purge_plan_spec(gs@),
{
    let mut out: Vec<String> = Vec::new();
    proof {
        assert(gs@.subrange(0, 0) =~= Seq::<Group>::empty());
        assert(out@ =~= purge_plan_spec(gs@.subrange(0, 0)));
    }
    let mut i: usize = 0;
    while i < gs.len()
        invariant
            i <= gs@.len(),
            scan_wf(gs@),
            out@ == purge_plan_spec(gs@.subrange(0, i as int)),
        decreases gs@.len() - i,
    {
        let g = &gs[i];
        let ghost out0 = out@;
        proof {
            assert(group_wf(gs@[i as int]));
            assert(out@ =~= out0 + g.snapshots@.subrange(1, 1));
        }
        let mut k: usize = 1;
        while k < g.snapshots.len()
            invariant
                1 <= k,
                k <= g.snapshots@.len(),
                out@ == out0 + g.snapshots@.subrange(1, k as int),
            decreases g.snapshots@.len() - k,
        {
            out.push(g.snapshots[k].clone());
            proof {
                assert(out@ =~= out0 + g.snapshots@.subrange(1, k + 1));
            }
            k = k + 1;
        }
        proof {
            assert(g.snapshots@.subrange(1, g.snapshots@.len() as int) =~= g.snapshots@.skip(1));
            assert(out@ == out0 + g.snapshots@.skip(1));
            assert(gs@.subrange(0, i + 1).drop_last() =~= gs@.subrange(0, i as int));
            assert(gs@.subrange(0, i + 1).last() == gs@[i as int]);
        }
        i = i + 1;
    }
    proof {
        assert(gs@.subrange(0, gs@.len() as int) =~= gs@);
    }
    out
}

/// A name is planned for purging exactly when some group lists it at a
/// position after the first: a purge deletes all but the newest entry of
/// every group and touches nothing else.
pub proof fn lemma_purge_plan_membership(gs: Seq<Group>, x: String)
    requires
        scan_wf(gs),
    ensures
        purge_plan_spec(gs).contains(x) <==> exists|i: int, k: int|
            0 <= i < gs.len() && 1 <= k < gs[i].snapshots@.len() && gs[i].snapshots@[k] == x,
    decreases gs.len(),
{
    if gs.len() > 0 {
        assert forall|i: int| 0 <= i < gs.drop_last().len() implies group_wf(
            #[trigger] gs.drop_last()[i],
        ) by {
            assert(gs.drop_last()[i] == gs[i]);
        }
        assert forall|i: int, j: int|
            0 <= i < j < gs.drop_last().len() implies crate::scan::prefix_lt(
            #[trigger] gs.drop_last()[i].prefix@,
            #[trigger] gs.drop_last()[j].prefix@,
        ) by {
            assert(gs.drop_last()[i] == gs[i] && gs.drop_last()[j] == gs[j]);
        }
        lemma_purge_plan_membership(gs.drop_last(), x);
        assert(group_wf(gs[gs.len() - 1]));
        let plan = purge_plan_spec(gs);
        let prev = purge_plan_spec(gs.drop_last());
        let tail = gs.last().snapshots@.skip(1);
        assert(plan == prev + tail);
        if plan.contains(x) {
            let w = choose|w: int| 0 <= w < plan.len() && plan[w] == x;
            if w < prev.len() {
                assert(prev[w] == x);
                let (i, k) = choose|i: int, k: int|
                    0 <= i < gs.drop_last().len() && 1 <= k < gs.drop_last()[i].snapshots@.len()
                        && gs.drop_last()[i].snapshots@[k] == x;
                assert(gs[i] == gs.drop_last()[i]);
                assert(gs[i].snapshots@[k] == x);
            } else {
                let k = w - prev.len() + 1;
                assert(tail[w - prev.len()] == gs.last().snapshots@[k]);
                assert(gs[gs.len() - 1].snapshots@[k] == x);
            }
        }
        if exists|i: int, k: int|
            0 <= i < gs.len() && 1 <= k < gs[i].snapshots@.len() && gs[i].snapshots@[k] == x {
            let (i, k) = choose|i: int, k: int|
                0 <= i < gs.len() && 1 <= k < gs[i].snapshots@.len() && gs[i].snapshots@[k] == x;
            if i < gs.len() - 1 {
                assert(gs.drop_last()[i] == gs[i]);
                assert(prev.contains(x));
                assert(plan[choose|w: int| 0 <= w < prev.len() && prev[w] == x] == x);
            } else {
                assert(tail[k - 1] == x);
                assert(plan[prev.len() + k - 1] == x);
            }
        }
    }
}

/// No two members of one group share a name. `lemma_scan_members_distinct`
/// shows that a scan of a directory listing, which never holds the same name
/// twice, always satisfies this.
pub open spec fn members_distinct(gs: Seq<Group>) -> bool {
    forall|i: int, k1: int, k2: int|
        0 <= i < gs.len() && 0 <= k1 < k2 < gs[i].snapshots@.len()
            ==> #[trigger] gs[i].snapshots@[k1] != #[trigger] gs[i].snapshots@[k2]
}

/// Filtering keeps a duplicate-free sequence duplicate-free.
proof fn lemma_filter_no_duplicates(s: Seq<String>, pred: spec_fn(String) -> bool)
    requires
        s.no_duplicates(),
    ensures
        s.filter(pred).no_duplicates(),
    decreases s.len(),
{
    reveal(Seq::filter);
    if s.len() > 0 {
        let rest = s.drop_last();
        assert(rest.no_duplicates());
        lemma_filter_no_duplicates(rest, pred);
        if pred(s.last()) {
            if rest.filter(pred).contains(s.last()) {
                rest.lemma_filter_contains_rev(pred, s.last());
                let w = choose|w: int| 0 <= w < rest.len() && rest[w] == s.last();
                assert(s[w] == s[s.len() - 1]);
                assert(false);
            }
            let f = rest.filter(pred).push(s.last());
            assert forall|i: int, j: int|
                0 <= i < f.len() && 0 <= j < f.len() && i != j implies f[i] != f[j] by {
                if i < f.len() - 1 && j < f.len() - 1 {
                    assert(f[i] == rest.filter(pred)[i] && f[j] == rest.filter(pred)[j]);
                } else if j == f.len() - 1 {
                    assert(f[i] == rest.filter(pred)[i] && f[j] == s.last());
                    assert(rest.filter(pred).contains(f[i]));
                } else {
                    assert(f[j] == rest.filter(pred)[j] && f[i] == s.last());
                    assert(rest.filter(pred).contains(f[j]));
                }
            }
            assert(s.filter(pred) == f);
        }
    }
}

/// A name occurs across all groups at least as often as in any one of them.
proof fn lemma_group_count_le(gs: Seq<Group>, i: int, x: String)
    requires
        0 <= i < gs.len(),
    ensures
        members_of(gs).count(x) >= gs[i].snapshots@.to_multiset().count(x),
    decreases gs.len(),
{
    if i < gs.len() - 1 {
        lemma_group_count_le(gs.drop_last(), i, x);
        assert(gs.drop_last()[i] == gs[i]);
    }
}

/// A sequence holding the same value at two positions tallies it at least
/// twice.
proof fn lemma_two_equal_entries(s: Seq<String>, k1: int, k2: int)
    requires
        0 <= k1 < k2 < s.len(),
        s[k1] == s[k2],
    ensures
        s.to_multiset().count(s[k1]) >= 2,
{
    let t = s.remove(k2);
    assert(t[k1] == s[k1]);
    assert(t.contains(s[k1]));
    assert(t.to_multiset().count(s[k1]) > 0);
    assert(t.to_multiset() =~= s.to_multiset().remove(s[k2]));
    assert(s.to_multiset().count(s[k1]) == t.to_multiset().count(s[k1]) + 1);
}

/// A scan of a listing that holds no name twice lists no name twice in any
/// group: what `lemma_purge_spares_newest` relies on holds of every scan of
/// a real directory.
pub proof fn lemma_scan_members_distinct(names: Seq<String>, gs: Seq<Group>)
    requires
        names.no_duplicates(),
        members_of(gs) == snapshot_entries(names).to_multiset(),
    ensures
        members_distinct(gs),
{
    lemma_filter_no_duplicates(names, snapshot_pred());
    snapshot_entries(names).lemma_multiset_has_no_duplicates();
    assert forall|i: int, k1: int, k2: int|
        0 <= i < gs.len() && 0 <= k1 < k2 < gs[i].snapshots@.len() implies #[trigger] gs[
        i
    ].snapshots@[k1] != #[trigger] gs[i].snapshots@[k2] by {
        if gs[i].snapshots@[k1] == gs[i].snapshots@[k2] {
            let x = gs[i].snapshots@[k1];
            lemma_two_equal_entries(gs[i].snapshots@, k1, k2);
            lemma_group_count_le(gs, i, x);
            assert(members_of(gs).count(x) >= 2);
            assert(snapshot_entries(names).to_multiset().contains(x));
            assert(false);
        }
    }
}

/// A purge never deletes the newest entry of any group: for a group of one
/// nothing is deleted, and for a larger group exactly the rest is.
pub proof fn lemma_purge_spares_newest(gs: Seq<Group>, i: int)
    requires
        scan_wf(gs),
        members_distinct(gs),
        0 <= i < gs.len(),
    ensures
        !purge_plan_spec(gs).contains(gs[i].snapshots@[0]),
{
    let x = gs[i].snapshots@[0];
    lemma_purge_plan_membership(gs, x);
    if purge_plan_spec(gs).contains(x) {
        let (j, k) = choose|j: int, k: int|
            0 <= j < gs.len() && 1 <= k < gs[j].snapshots@.len() && gs[j].snapshots@[k] == x;
        assert(group_wf(gs[i]));
        assert(group_wf(gs[j]));
        if i == j {
            assert(gs[i].snapshots@[0] != gs[i].snapshots@[k]);
        } else {
            assert(crate::scan::prefix_of(gs[i].snapshots@[0]@) == gs[i].prefix@);
            assert(crate::scan::prefix_of(gs[j].snapshots@[k]@) == gs[j].prefix@);
            if i < j {
                crate::scan::lemma_prefix_lt_asymmetric(gs[i].prefix@, gs[j].prefix@);
            } else {
                crate::scan::lemma_prefix_lt_asymmetric(gs[j].prefix@, gs[i].prefix@);
            }
            assert(gs[i].prefix@ != gs[j].prefix@);
        }
    }
}

/// The predicate selecting the entries a broken-subvolume cleanup removes.
pub open spec fn broken_pred() -> spec_fn(String) -> bool {
    |n: String| contains_seq(n@, broken_marker())
}

/// The pool entries a cleanup removes: every name carrying the marker.
pub open spec fn broken_entries(names: Seq<String>) -> Seq<String> {
    names.filter(broken_pred())
}

/// Plans a broken-subvolume cleanup over a pool directory listing: exactly
/// the entries whose name carries the marker, in listing order.
pub fn broken_plan(names: &Vec<String>) -> (r: Vec<String>)
    ensures
        r@ == broken_entries(names@),
{
    let mut out: Vec<String> = Vec::new();
    proof {
        assert(names@.subrange(0, 0) =~= Seq::<String>::empty());
        assert(Seq::<String>::empty().filter(broken_pred()) =~= Seq::<String>::empty());
    }
    let mut i: usize = 0;
    while i < names.len()
        invariant
            i <= names@.len(),
            out@ == names@.subrange(0, i as int).filter(broken_pred()),
        decreases names@.len() - i,
    {
        let name: &String = &names[i];
        let ghost prev = names@.subrange(0, i as int);
        proof {
            assert(names@.subrange(0, i + 1) =~= prev + seq![*name]);
            Seq::filter_distributes_over_add(prev, seq![*name], broken_pred());
            lemma_filter_singleton(*name, broken_pred());
        }
        if contains_str(name.as_str(), ".BROKEN") {
            out.push(name.clone());
            proof {
                assert(broken_pred()(*name));
                assert(seq![*name].filter(broken_pred()) =~= seq![*name]);
                assert(prev.filter(broken_pred()) + seq![*name] =~= prev.filter(
                    broken_pred(),
                ).push(*name));
            }
        } else {
            proof {
                assert(!broken_pred()(*name));
                assert(seq![*name].filter(broken_pred()) =~= Seq::<String>::empty());
                assert(prev.filter(broken_pred()) + Seq::<String>::empty() =~= prev.filter(
                    broken_pred(),
                ));
            }
        }
        i = i + 1;
    }
    proof {
        assert(names@.subrange(0, names@.len() as int) =~= names@);
    }
    out
}

/// Filtering a single-element sequence.
proof fn lemma_filter_singleton(x: String, pred: spec_fn(String) -> bool)
    ensures
        pred(x) ==> seq![x].filter(pred) =~= seq![x],
        !pred(x) ==> seq![x].filter(pred) =~= Seq::<String>::empty(),
{
    reveal_with_fuel(Seq::filter, 2);
    assert(seq![x].drop_last() =~= Seq::<String>::empty());
    assert(seq![x].last() == x);
}

/// A cleanup plan holds every listed name that carries the marker and none
/// that does not, regardless of which group the name belongs to.
pub proof fn lemma_clean_broken_exact(names: Seq<String>, x: String)
    ensures
        broken_entries(names).contains(x) <==> names.contains(x) && contains_seq(
            x@,
            broken_marker(),
        ),
    decreases names.len(),
{
    if names.len() == 0 {
        assert(names.filter(broken_pred()) =~= Seq::<String>::empty());
    } else {
        lemma_clean_broken_exact(names.drop_last(), x);
        let prev = names.drop_last();
        assert(names =~= prev + seq![names.last()]);
        Seq::filter_distributes_over_add(prev, seq![names.last()], broken_pred());
        lemma_filter_singleton(names.last(), broken_pred());
        assert(broken_entries(names) == broken_entries(prev) + seq![names.last()].filter(
            broken_pred(),
        ));
        if names.contains(x) && contains_seq(x@, broken_marker()) {
            if x == names.last() {
                let e = broken_entries(prev) + seq![x];
                assert(e[e.len() - 1] == x);
            } else {
                let w = choose|w: int| 0 <= w < names.len() && names[w] == x;
                assert(prev[w] == x);
                assert(broken_entries(prev).contains(x));
                let v = choose|v: int|
                    0 <= v < broken_entries(prev).len() && broken_entries(prev)[v] == x;
                assert(broken_entries(names)[v] == x);
            }
        }
        if broken_entries(names).contains(x) {
            let w = choose|w: int|
                0 <= w < broken_entries(names).len() && broken_entries(names)[w] == x;
            if w < broken_entries(prev).len() {
                assert(broken_entries(prev)[w] == x);
                let v = choose|v: int| 0 <= v < prev.len() && prev[v] == x;
                assert(names[v] == x);
            } else {
                assert(x == names.last());
                assert(broken_pred()(x));
                assert(names[names.len() - 1] == x);
            }
        }
    }
}

/// How a maintenance operation ended: the listing could not be read at all,
/// or it ran and reports how many deletions succeeded and which entries were
/// involved.
pub enum MaintenanceResult {
    Failed,
    Completed { count: usize, names: Vec<String> },
}

/// How many deletions succeeded.
pub open spec fn count_trues(s: Seq<bool>) -> int
    decreases s.len(),
{
    if s.len() == 0 {
        0
    } else {
        count_trues(s.drop_last()) + if s.last() {
            1int
        } else {
            0int
        }
    }
}

/// The planned names whose deletion succeeded, in plan order.
pub open spec fn kept_of(planned: Seq<String>, results: Seq<bool>) -> Seq<String>
    decreases planned.len(),
{
    if planned.len() == 0 || planned.len() != results.len() {
        Seq::empty()
    } else {
        kept_of(planned.drop_last(), results.drop_last()) + if results.last() {
            seq![planned.last()]
        } else {
            Seq::empty()
        }
    }
}

/// Counts the deletions that succeeded.
pub fn deletion_count(results: &Vec<bool>) -> (r: usize)
    ensures
        r == count_trues(results@),
{
    proof {
        assert(results@.subrange(0, 0) =~= Seq::<bool>::empty());
    }
    let mut n: usize = 0;
    let mut i: usize = 0;
    while i < results.len()
        invariant
            i <= results@.len(),
            n == count_trues(results@.subrange(0, i as int)),
            n <= i,
        decreases results@.len() - i,
    {
        proof {
            assert(results@.subrange(0, i + 1).drop_last() =~= results@.subrange(0, i as int));
            assert(results@.subrange(0, i + 1).last() == results@[i as int]);
        }
        if results[i] {
            n = n + 1;
        }
        i = i + 1;
    }
    proof {
        assert(results@.subrange(0, results@.len() as int) =~= results@);
    }
    n
}

/// Collects the names whose deletion succeeded.
pub fn deleted_names(planned: &Vec<String>, results: &Vec<bool>) -> (r: Vec<String>)
    requires
        planned@.len() == results@.len(),
    ensures
        r@ == kept_of(planned@, results@),
{
    let mut out: Vec<String> = Vec::new();
    proof {
        assert(planned@.subrange(0, 0) =~= Seq::<String>::empty());
        assert(results@.subrange(0, 0) =~= Seq::<bool>::empty());
        assert(out@ =~= kept_of(planned@.subrange(0, 0), results@.subrange(0, 0)));
    }
    let mut i: usize = 0;
    while i < planned.len()
        invariant
            i <= planned@.len(),
            planned@.len() == results@.len(),
            out@ == kept_of(planned@.subrange(0, i as int), results@.subrange(0, i as int)),
        decreases planned@.len() - i,
    {
        proof {
            assert(planned@.subrange(0, i + 1).drop_last() =~= planned@.subrange(0, i as int));
            assert(results@.subrange(0, i + 1).drop_last() =~= results@.subrange(0, i as int));
            assert(planned@.subrange(0, i + 1).last() == planned@[i as int]);
            assert(results@.subrange(0, i + 1).last() == results@[i as int]);
        }
        if results[i] {
            out.push(planned[i].clone());
            proof {
                assert(out@ =~= kept_of(
                    planned@.subrange(0, i + 1),
                    results@.subrange(0, i + 1),
                ));
            }
        } else {
            proof {
                assert(out@ + Seq::<String>::empty() =~= out@);
            }
        }
        i = i + 1;
    }
    proof {
        assert(planned@.subrange(0, planned@.len() as int) =~= planned@);
        assert(results@.subrange(0, results@.len() as int) =~= results@);
    }
    out
}

} // verus!

