//! The snapshot selection engine: which groups a job transfers, in which
//! order, and which snapshots of each group.
use vstd::prelude::*;

use crate::datastore::{group_le, group_le_exec, group_id_eq, group_lt, lemma_group_le_connected,
    lemma_group_le_transitive, lemma_paths_lt_asymmetric, paths_lt, BackupNamespace, GroupData,
    SnapshotData};
use crate::text::{chars_lt, lemma_chars_lt_asymmetric, lemma_chars_lt_connected};
use crate::jobs::{spec_passes_filters, passes_filters, GroupFilter};
use vstd::multiset::Multiset;
use vstd::relations::sorted_by;
use vstd::seq_lib::lemma_multiset_commutative;

verus! {

/// The group lies within the job's namespace scope.
pub open spec fn spec_in_scope(g: GroupData, anchor: Seq<Seq<char>>, depth: Option<usize>) -> bool {
    g.ns.spec_within(anchor, depth)
}

/// The group passes the job's filters.
pub open spec fn spec_passes(g: GroupData, filters: Seq<GroupFilter>) -> bool {
    spec_passes_filters(filters, g.group.ty, g.group.id@)
}

/// The sort order of the work list, as a relation value.
pub open spec fn group_le_fn() -> spec_fn(GroupData, GroupData) -> bool {
    |a: GroupData, b: GroupData| group_le(&a, &b)
}

/// A group is selected for the job: within the namespace scope and
/// passing the filters.
pub open spec fn spec_group_selected(
    g: GroupData,
    anchor: Seq<Seq<char>>,
    depth: Option<usize>,
    filters: Seq<GroupFilter>,
) -> bool {
    spec_in_scope(g, anchor, depth) && spec_passes(g, filters)
}

/// How many groups of the sequence lie within the namespace scope.
pub open spec fn count_scope(s: Seq<GroupData>, anchor: Seq<Seq<char>>, depth: Option<usize>) -> int
    decreases s.len(),
{
    if s.len() == 0 {
        0
    } else {
        count_scope(s.drop_last(), anchor, depth) + if spec_in_scope(s.last(), anchor, depth) {
            1int
        } else {
            0int
        }
    }
}

/// The selected groups of the sequence, as a multiset.
pub open spec fn selected_multiset(
    s: Seq<GroupData>,
    anchor: Seq<Seq<char>>,
    depth: Option<usize>,
    filters: Seq<GroupFilter>,
) -> Multiset<GroupData>
    decreases s.len(),
{
    if s.len() == 0 {
        Multiset::empty()
    } else {
        let rest = selected_multiset(s.drop_last(), anchor, depth, filters);
        if spec_group_selected(s.last(), anchor, depth, filters) {
            rest.insert(s.last())
        } else {
            rest
        }
    }
}

/// The finished snapshots of the sequence, as a multiset.
pub open spec fn finished_multiset(s: Seq<SnapshotData>) -> Multiset<SnapshotData>
    decreases s.len(),
{
    if s.len() == 0 {
        Multiset::empty()
    } else {
        let rest = finished_multiset(s.drop_last());
        if s.last().finished {
            rest.insert(s.last())
        } else {
            rest
        }
    }
}

/// A member of the selected multiset stands in the sequence and is
/// selected.
pub proof fn lemma_selected_multiset_member(
    s: Seq<GroupData>,
    anchor: Seq<Seq<char>>,
    depth: Option<usize>,
    filters: Seq<GroupFilter>,
    x: GroupData,
)
    requires
        selected_multiset(s, anchor, depth, filters).contains(x),
    ensures
        s.contains(x),
        spec_group_selected(x, anchor, depth, filters),
    decreases s.len(),
{
    broadcast use vstd::multiset::group_multiset_axioms;

    if s.len() > 0 {
        if spec_group_selected(s.last(), anchor, depth, filters) && x == s.last() {
            assert(s[s.len() - 1] == x);
        } else {
            lemma_selected_multiset_member(s.drop_last(), anchor, depth, filters, x);
            let m = choose|m: int| 0 <= m < s.drop_last().len() && s.drop_last()[m] == x;
            assert(s[m] == x);
        }
    }
}

/// A member of the finished multiset stands in the sequence and is
/// finished.
pub proof fn lemma_finished_multiset_member(s: Seq<SnapshotData>, x: SnapshotData)
    requires
        finished_multiset(s).contains(x),
    ensures
        s.contains(x),
        x.finished,
    decreases s.len(),
{
    broadcast use vstd::multiset::group_multiset_axioms;

    if s.len() > 0 {
        if s.last().finished && x == s.last() {
            assert(s[s.len() - 1] == x);
        } else {
            lemma_finished_multiset_member(s.drop_last(), x);
            let m = choose|m: int| 0 <= m < s.drop_last().len() && s.drop_last()[m] == x;
            assert(s[m] == x);
        }
    }
}

/// A selected group of the sequence is a member of its selected multiset.
pub proof fn lemma_selected_multiset_contains(
    s: Seq<GroupData>,
    anchor: Seq<Seq<char>>,
    depth: Option<usize>,
    filters: Seq<GroupFilter>,
    gi: int,
)
    requires
        0 <= gi < s.len(),
        spec_group_selected(s[gi], anchor, depth, filters),
    ensures
        selected_multiset(s, anchor, depth, filters).contains(s[gi]),
    decreases s.len(),
{
    broadcast use vstd::multiset::group_multiset_axioms;

    if gi == s.len() - 1 {
    } else {
        assert(s.drop_last()[gi] == s[gi]);
        lemma_selected_multiset_contains(s.drop_last(), anchor, depth, filters, gi);
    }
}

/// A finished snapshot of the sequence is a member of its finished
/// multiset.
pub proof fn lemma_finished_multiset_contains(s: Seq<SnapshotData>, k: int)
    requires
        0 <= k < s.len(),
        s[k].finished,
    ensures
        finished_multiset(s).contains(s[k]),
    decreases s.len(),
{
    broadcast use vstd::multiset::group_multiset_axioms;

    if k == s.len() - 1 {
    } else {
        assert(s.drop_last()[k] == s[k]);
        lemma_finished_multiset_contains(s.drop_last(), k);
    }
}

/// Counts the groups within the namespace scope, for the discovery log line.
pub fn count_in_scope(
    groups: &Vec<GroupData>,
    anchor: &BackupNamespace,
    depth: Option<usize>,
) -> (r: usize)
    ensures
        r == count_scope(groups@, anchor.spec_path(), depth),
{
    let n = groups.len();
    let mut count: usize = 0;
    let mut i: usize = 0;
    proof {
        assert(groups@.take(0int) =~= Seq::<GroupData>::empty());
    }
    while i < n
        invariant
            n == groups@.len(),
            i <= n,
            count <= i,
            count == count_scope(groups@.take(i as int), anchor.spec_path(), depth),
        decreases n - i,
    {
        let keep = groups[i].ns.within(anchor, depth);
        proof {
            assert(groups@.take(i + 1).drop_last() =~= groups@.take(i as int));
            assert(groups@.take(i + 1).last() == groups@[i as int]);
        }
        if keep {
            count += 1;
        }
        i += 1;
    }
    proof {
        assert(groups@.take(n as int) =~= groups@);
    }
    count
}

/// Keeps the selected groups. Order is not preserved; the sort that
/// follows fixes it.
pub fn filter_selected(
    groups: Vec<GroupData>,
    anchor: &BackupNamespace,
    depth: Option<usize>,
    filters: &Vec<GroupFilter>,
) -> (r: Vec<GroupData>)
    ensures
        r@.to_multiset() == selected_multiset(groups@, anchor.spec_path(), depth, filters@),
        forall|k: int|
            0 <= k < r@.len() ==> spec_group_selected(
                #[trigger] r@[k],
                anchor.spec_path(),
                depth,
                filters@,
            ),
{
    let ghost orig = groups@;
    let mut src = groups;
    let mut dst: Vec<GroupData> = Vec::new();
    proof {
        broadcast use vstd::seq_lib::group_to_multiset_ensures;
        broadcast use vstd::multiset::group_multiset_axioms;

        assert(orig.take(orig.len() as int) =~= orig);
    }
    while src.len() > 0
        invariant
            src@.len() <= orig.len(),
            src@ == orig.take(src@.len() as int),
            selected_multiset(src@, anchor.spec_path(), depth, filters@).add(dst@.to_multiset())
                == selected_multiset(orig, anchor.spec_path(), depth, filters@),
            forall|k: int|
                0 <= k < dst@.len() ==> spec_group_selected(
                    #[trigger] dst@[k],
                    anchor.spec_path(),
                    depth,
                    filters@,
                ),
        decreases src@.len(),
    {
        let ghost i = src@.len() as int;
        let g = match src.pop() {
            Some(g) => g,
            None => {
                proof {
                    assert(false);
                }
                unreached()
            },
        };
        proof {
            broadcast use vstd::seq_lib::group_to_multiset_ensures;
            broadcast use vstd::multiset::group_multiset_axioms;

            assert(src@ =~= orig.take(i - 1));
            assert(orig.take(i).drop_last() =~= orig.take(i - 1));
            assert(g == orig.take(i).last());
        }
        let keep = g.ns.within(anchor, depth) && passes_filters(
            filters,
            g.group.ty,
            g.group.id.as_str(),
        );
        if keep {
            dst.push(g);
            proof {
                broadcast use vstd::seq_lib::group_to_multiset_ensures;
                broadcast use vstd::multiset::group_multiset_axioms;

                assert(selected_multiset(src@, anchor.spec_path(), depth, filters@).add(
                    dst@.to_multiset(),
                ) =~= selected_multiset(orig, anchor.spec_path(), depth, filters@));
            }
        }
    }
    proof {
        broadcast use vstd::multiset::group_multiset_axioms;

        assert(src@.len() == 0);
        assert(selected_multiset(src@, anchor.spec_path(), depth, filters@) =~= Multiset::<
            GroupData,
        >::empty());
        assert(dst@.to_multiset() =~= selected_multiset(orig, anchor.spec_path(), depth, filters@));
    }
    dst
}

/// Inserts a group into a sorted work list, keeping it sorted.
fn insert_group_sorted(out: &mut Vec<GroupData>, x: GroupData)
    requires
        sorted_by(old(out)@, group_le_fn()),
    ensures
        sorted_by(final(out)@, group_le_fn()),
        final(out)@.to_multiset() == old(out)@.to_multiset().insert(x),
{
    let n = out.len();
    let mut idx: usize = 0;
    while idx < n && group_le_exec(&out[idx], &x)
        invariant
            n == out@.len(),
            idx <= n,
            forall|j: int| 0 <= j < idx ==> group_le(&out@[j], &x),
        decreases n - idx,
    {
        idx += 1;
    }
    let ghost before = out@;
    out.insert(idx, x);
    proof {
        broadcast use vstd::seq_lib::group_to_multiset_ensures;
        broadcast use vstd::multiset::group_multiset_axioms;

        let leq = group_le_fn();
        assert forall|a: int, b: int| 0 <= a < b < out@.len() implies leq(out@[a], out@[b]) by {
            if b < idx {
                assert(out@[a] == before[a] && out@[b] == before[b]);
            } else if a > idx {
                assert(out@[a] == before[a - 1] && out@[b] == before[b - 1]);
            } else if a < idx && b == idx {
                assert(out@[a] == before[a] && out@[b] == x);
            } else if a == idx && b > idx {
                assert(out@[a] == x && out@[b] == before[b - 1]);
                if idx < before.len() {
                    lemma_group_le_connected(&x, &before[idx as int]);
                    if (idx as int) < b - 1 {
                        assert(leq(before[idx as int], before[b - 1]));
                        lemma_group_le_transitive(&x, &before[idx as int], &before[b - 1]);
                    }
                }
            } else if a < idx && b > idx {
                assert(out@[a] == before[a] && out@[b] == before[b - 1]);
            }
        }
        assert(out@ =~= before.insert(idx as int, x));
        lemma_insert_multiset(before, idx as int, x);
    }
}

/// Inserting an element anywhere adds exactly it to the multiset.
proof fn lemma_insert_multiset(s: Seq<GroupData>, i: int, x: GroupData)
    requires
        0 <= i <= s.len(),
    ensures
        s.insert(i, x).to_multiset() == s.to_multiset().insert(x),
{
    broadcast use vstd::seq_lib::group_to_multiset_ensures;
    broadcast use vstd::multiset::group_multiset_axioms;

    let t = s.insert(i, x);
    assert(t =~= s.take(i) + (seq![x] + s.skip(i)));
    lemma_multiset_commutative(s.take(i), seq![x] + s.skip(i));
    lemma_multiset_commutative(seq![x], s.skip(i));
    assert(seq![x].to_multiset() =~= Multiset::<GroupData>::empty().insert(x));
    assert(s =~= s.take(i) + s.skip(i));
    lemma_multiset_commutative(s.take(i), s.skip(i));
    assert(t.to_multiset() =~= s.to_multiset().insert(x));
}

/// Sorts the work list by group identity: type, then id, then namespace.
/// This order, not discovery order, fixes the processing order.
pub fn sort_groups(groups: Vec<GroupData>) -> (r: Vec<GroupData>)
    ensures
        sorted_by(r@, group_le_fn()),
        r@.to_multiset() == groups@.to_multiset(),
{
    let ghost orig = groups@;
    let mut src = groups;
    let mut dst: Vec<GroupData> = Vec::new();
    proof {
        broadcast use vstd::seq_lib::group_to_multiset_ensures;
        broadcast use vstd::multiset::group_multiset_axioms;

        assert(orig.take(orig.len() as int) =~= orig);
    }
    while src.len() > 0
        invariant
            src@.len() <= orig.len(),
            src@ == orig.take(src@.len() as int),
            sorted_by(dst@, group_le_fn()),
            dst@.to_multiset().add(src@.to_multiset()) == orig.to_multiset(),
        decreases src@.len(),
    {
        let ghost i = src@.len() as int;
        let g = match src.pop() {
            Some(g) => g,
            None => {
                proof {
                    assert(false);
                }
                unreached()
            },
        };
        proof {
            broadcast use vstd::seq_lib::group_to_multiset_ensures;
            broadcast use vstd::multiset::group_multiset_axioms;

            assert(src@ =~= orig.take(i - 1));
            assert(orig.take(i) =~= orig.take(i - 1).push(orig[i - 1]));
        }
        insert_group_sorted(&mut dst, g);
    }
    proof {
        broadcast use vstd::multiset::group_multiset_axioms;

        assert(orig.take(0) =~= Seq::<GroupData>::empty());
        assert(dst@.to_multiset() =~= orig.to_multiset());
    }
    dst
}

/// Two sorted work lists over the same groups are identical, provided no
/// two distinct groups share an identity: the processing order does not
/// depend on discovery order.
pub proof fn lemma_sorted_groups_canonical(x: Seq<GroupData>, y: Seq<GroupData>)
    requires
        sorted_by(x, group_le_fn()),
        sorted_by(y, group_le_fn()),
        x.to_multiset() == y.to_multiset(),
        forall|a: int, b: int|
            0 <= a < x.len() && 0 <= b < x.len() && group_id_eq(&(#[trigger] x[a]), &(#[trigger] x[b]))
                ==> x[a] == x[b],
    ensures
        x =~= y,
    decreases x.len(),
{
    broadcast use vstd::seq_lib::group_to_multiset_ensures;
    broadcast use vstd::multiset::group_multiset_axioms;

    if x.len() == 0 {
        assert(x.to_multiset().len() == 0);
        assert(y.len() == 0);
    } else if y.len() == 0 {
        assert(y.to_multiset().len() == 0);
    } else {
        let leq = group_le_fn();
        assert(x.to_multiset().contains(x[0]));
        assert(y.to_multiset().contains(x[0]));
        assert(y.contains(x[0]));
        assert(x.to_multiset().contains(y[0]));
        assert(x.contains(y[0]));
        let i = choose|i: int| 0 <= i < y.len() && y[i] == x[0];
        let j = choose|j: int| 0 <= j < x.len() && x[j] == y[0];
        if i > 0 {
            assert(leq(y[0], y[i]));
        }
        if j > 0 {
            assert(leq(x[0], x[j]));
        }
        lemma_group_le_connected(&x[0], &y[0]);
        assert(group_le(&x[0], &y[0]) && group_le(&y[0], &x[0])) by {
            if i > 0 && j > 0 {
                assert(group_le(&y[0], &x[0]));
                assert(group_le(&x[0], &y[0]));
            }
        }
        lemma_group_le_antisymmetric(&x[0], &y[0]);
        assert(x[0] == y[0]) by {
            assert(x[j] == y[0]);
            assert(group_id_eq(&x[0], &x[j]));
        }
        assert(x.drop_first().to_multiset() =~= x.to_multiset().remove(x[0])) by {
            assert(x.remove(0) =~= x.drop_first());
        }
        assert(y.drop_first().to_multiset() =~= y.to_multiset().remove(y[0])) by {
            assert(y.remove(0) =~= y.drop_first());
        }
        assert forall|a: int, b: int|
            0 <= a < x.drop_first().len() && 0 <= b < x.drop_first().len() && group_id_eq(
                &(#[trigger] x.drop_first()[a]),
                &(#[trigger] x.drop_first()[b]),
            ) implies x.drop_first()[a] == x.drop_first()[b] by {
            assert(x.drop_first()[a] == x[a + 1]);
            assert(x.drop_first()[b] == x[b + 1]);
        }
        assert(sorted_by(x.drop_first(), leq)) by {
            assert forall|a: int, b: int|
                0 <= a < b < x.drop_first().len() implies leq(
                x.drop_first()[a],
                x.drop_first()[b],
            ) by {
                assert(x.drop_first()[a] == x[a + 1]);
                assert(x.drop_first()[b] == x[b + 1]);
            }
        }
        assert(sorted_by(y.drop_first(), leq)) by {
            assert forall|a: int, b: int|
                0 <= a < b < y.drop_first().len() implies leq(
                y.drop_first()[a],
                y.drop_first()[b],
            ) by {
                assert(y.drop_first()[a] == y[a + 1]);
                assert(y.drop_first()[b] == y[b + 1]);
            }
        }
        lemma_sorted_groups_canonical(x.drop_first(), y.drop_first());
        assert(x =~= seq![x[0]] + x.drop_first());
        assert(y =~= seq![y[0]] + y.drop_first());
    }
}

/// Mutual `group_le` forces equal identities.
proof fn lemma_group_le_antisymmetric(a: &GroupData, b: &GroupData)
    requires
        group_le(a, b),
        group_le(b, a),
    ensures
        group_id_eq(a, b),
{
    if !group_id_eq(a, b) {
        assert(group_lt(a, b) && group_lt(b, a));
        if a.group.ty.spec_rank() == b.group.ty.spec_rank() {
            if chars_lt(a.group.id@, b.group.id@) {
                lemma_chars_lt_asymmetric(a.group.id@, b.group.id@);
            } else if chars_lt(b.group.id@, a.group.id@) {
                lemma_chars_lt_asymmetric(b.group.id@, a.group.id@);
            } else {
                lemma_chars_lt_connected(a.group.id@, b.group.id@);
                if paths_lt(a.ns.spec_path(), b.ns.spec_path()) {
                    lemma_paths_lt_asymmetric(a.ns.spec_path(), b.ns.spec_path());
                }
            }
        }
    }
}

// ---------------------------------------------------------------------------
// Snapshot preparation within one group.
// ---------------------------------------------------------------------------
/// The snapshot order within a group: oldest first.
pub open spec fn snap_le_fn() -> spec_fn(SnapshotData, SnapshotData) -> bool {
    |a: SnapshotData, b: SnapshotData| a.time <= b.time
}

/// Keeps the finished snapshots. Order is not preserved; the sort that
/// follows fixes it.
fn filter_finished(snaps: Vec<SnapshotData>) -> (r: Vec<SnapshotData>)
    ensures
        r@.to_multiset() == finished_multiset(snaps@),
        forall|k: int| 0 <= k < r@.len() ==> (#[trigger] r@[k]).finished,
{
    let ghost orig = snaps@;
    let mut src = snaps;
    let mut dst: Vec<SnapshotData> = Vec::new();
    proof {
        broadcast use vstd::seq_lib::group_to_multiset_ensures;
        broadcast use vstd::multiset::group_multiset_axioms;

        assert(orig.take(orig.len() as int) =~= orig);
    }
    while src.len() > 0
        invariant
            src@.len() <= orig.len(),
            src@ == orig.take(src@.len() as int),
            finished_multiset(src@).add(dst@.to_multiset()) == finished_multiset(orig),
            forall|k: int| 0 <= k < dst@.len() ==> (#[trigger] dst@[k]).finished,
        decreases src@.len(),
    {
        let ghost i = src@.len() as int;
        let s = match src.pop() {
            Some(s) => s,
            None => {
                proof {
                    assert(false);
                }
                unreached()
            },
        };
        proof {
            broadcast use vstd::seq_lib::group_to_multiset_ensures;
            broadcast use vstd::multiset::group_multiset_axioms;

            assert(src@ =~= orig.take(i - 1));
            assert(orig.take(i).drop_last() =~= orig.take(i - 1));
            assert(s == orig.take(i).last());
        }
        if s.finished {
            dst.push(s);
            proof {
                broadcast use vstd::seq_lib::group_to_multiset_ensures;
                broadcast use vstd::multiset::group_multiset_axioms;

                assert(finished_multiset(src@).add(dst@.to_multiset()) =~= finished_multiset(
                    orig,
                ));
            }
        }
    }
    proof {
        broadcast use vstd::multiset::group_multiset_axioms;

        assert(finished_multiset(src@) =~= Multiset::<SnapshotData>::empty());
        assert(dst@.to_multiset() =~= finished_multiset(orig));
    }
    dst
}

/// Inserts a snapshot into a list sorted oldest-first, keeping it sorted.
fn insert_snap_sorted(out: &mut Vec<SnapshotData>, x: SnapshotData)
    requires
        sorted_by(old(out)@, snap_le_fn()),
    ensures
        sorted_by(final(out)@, snap_le_fn()),
        final(out)@.to_multiset() == old(out)@.to_multiset().insert(x),
{
    let n = out.len();
    let mut idx: usize = 0;
    while idx < n && out[idx].time <= x.time
        invariant
            n == out@.len(),
            idx <= n,
            forall|j: int| 0 <= j < idx ==> (#[trigger] out@[j]).time <= x.time,
        decreases n - idx,
    {
        idx += 1;
    }
    let ghost before = out@;
    out.insert(idx, x);
    proof {
        broadcast use vstd::seq_lib::group_to_multiset_ensures;
        broadcast use vstd::multiset::group_multiset_axioms;

        let leq = snap_le_fn();
        assert forall|a: int, b: int| 0 <= a < b < out@.len() implies leq(out@[a], out@[b]) by {
            if b < idx {
                assert(out@[a] == before[a] && out@[b] == before[b]);
            } else if a > idx {
                assert(out@[a] == before[a - 1] && out@[b] == before[b - 1]);
            } else if a < idx && b == idx {
                assert(out@[a] == before[a] && out@[b] == x);
            } else if a == idx && b > idx {
                assert(out@[a] == x && out@[b] == before[b - 1]);
                if idx < before.len() && (idx as int) < b - 1 {
                    assert(leq(before[idx as int], before[b - 1]));
                }
            } else if a < idx && b > idx {
                assert(out@[a] == before[a] && out@[b] == before[b - 1]);
            }
        }
        assert(out@ =~= before.insert(idx as int, x));
        lemma_insert_snap_multiset(before, idx as int, x);
    }
}

proof fn lemma_insert_snap_multiset(s: Seq<SnapshotData>, i: int, x: SnapshotData)
    requires
        0 <= i <= s.len(),
    ensures
        s.insert(i, x).to_multiset() == s.to_multiset().insert(x),
{
    broadcast use vstd::seq_lib::group_to_multiset_ensures;
    broadcast use vstd::multiset::group_multiset_axioms;

    let t = s.insert(i, x);
    assert(t =~= s.take(i) + (seq![x] + s.skip(i)));
    lemma_multiset_commutative(s.take(i), seq![x] + s.skip(i));
    lemma_multiset_commutative(seq![x], s.skip(i));
    assert(seq![x].to_multiset() =~= Multiset::<SnapshotData>::empty().insert(x));
    assert(s =~= s.take(i) + s.skip(i));
    lemma_multiset_commutative(s.take(i), s.skip(i));
    assert(t.to_multiset() =~= s.to_multiset().insert(x));
}

/// Sorts a group's snapshots oldest first.
pub fn sort_snapshots(snaps: Vec<SnapshotData>) -> (r: Vec<SnapshotData>)
    ensures
        sorted_by(r@, snap_le_fn()),
        r@.to_multiset() == snaps@.to_multiset(),
{
    let ghost orig = snaps@;
    let mut src = snaps;
    let mut dst: Vec<SnapshotData> = Vec::new();
    proof {
        broadcast use vstd::seq_lib::group_to_multiset_ensures;
        broadcast use vstd::multiset::group_multiset_axioms;

        assert(orig.take(orig.len() as int) =~= orig);
    }
    while src.len() > 0
        invariant
            src@.len() <= orig.len(),
            src@ == orig.take(src@.len() as int),
            sorted_by(dst@, snap_le_fn()),
            dst@.to_multiset().add(src@.to_multiset()) == orig.to_multiset(),
        decreases src@.len(),
    {
        let ghost i = src@.len() as int;
        let s = match src.pop() {
            Some(s) => s,
            None => {
                proof {
                    assert(false);
                }
                unreached()
            },
        };
        proof {
            broadcast use vstd::seq_lib::group_to_multiset_ensures;
            broadcast use vstd::multiset::group_multiset_axioms;

            assert(src@ =~= orig.take(i - 1));
            assert(orig.take(i) =~= orig.take(i - 1).push(orig[i - 1]));
        }
        insert_snap_sorted(&mut dst, s);
    }
    proof {
        broadcast use vstd::multiset::group_multiset_axioms;

        assert(orig.take(0) =~= Seq::<SnapshotData>::empty());
        assert(dst@.to_multiset() =~= orig.to_multiset());
    }
    dst
}

/// Prepares one group's snapshots for transfer: discards unfinished ones,
/// orders the rest oldest first, and in latest-only mode reduces the list
/// to its single newest entry.
pub fn prepare_snapshots(snaps: Vec<SnapshotData>, latest_only: bool) -> (r: Vec<SnapshotData>)
    ensures
        sorted_by(r@, snap_le_fn()),
        forall|k: int| 0 <= k < r@.len() ==> (#[trigger] r@[k]).finished,
        !latest_only ==> r@.to_multiset() == finished_multiset(snaps@),
        latest_only ==> r@.len() == (if finished_multiset(snaps@).len() == 0 {
            0int
        } else {
            1int
        }),
        latest_only && r@.len() == 1 ==> finished_multiset(snaps@).contains(r@[0]) && (forall|
            k: int,
        |
            0 <= k < snaps@.len() && (#[trigger] snaps@[k]).finished ==> snaps@[k].time
                <= r@[0].time),
{
    broadcast use vstd::seq_lib::group_to_multiset_ensures;
    broadcast use vstd::multiset::group_multiset_axioms;

    let finished = filter_finished(snaps);
    let ghost fin_view = finished@;
    let mut sorted = sort_snapshots(finished);
    proof {
        assert forall|k: int| 0 <= k < sorted@.len() implies (#[trigger] sorted@[k]).finished by {
            assert(sorted@.to_multiset().contains(sorted@[k])) by {
                assert(sorted@.contains(sorted@[k]));
            }
            assert(fin_view.to_multiset().contains(sorted@[k]));
            assert(fin_view.contains(sorted@[k]));
            let j = choose|j: int| 0 <= j < fin_view.len() && fin_view[j] == sorted@[k];
            assert(fin_view[j].finished);
        }
    }
    if !latest_only {
        return sorted;
    }
    let ghost all = sorted@;
    match sorted.pop() {
        None => {
            proof {
                assert(all.to_multiset().len() == 0);
            }
            sorted
        },
        Some(last) => {
            let mut out: Vec<SnapshotData> = Vec::new();
            out.push(last);
            proof {
                assert(last == all.last());
                assert(all.to_multiset().contains(last)) by {
                    assert(all.contains(last));
                }
                assert forall|k: int|
                    0 <= k < snaps@.len() && (#[trigger] snaps@[k]).finished implies snaps@[k].time
                    <= last.time by {
                    lemma_finished_multiset_contains(snaps@, k);
                    assert(all.to_multiset().contains(snaps@[k]));
                    assert(all.contains(snaps@[k]));
                    let j = choose|j: int| 0 <= j < all.len() && all[j] == snaps@[k];
                    if j < all.len() - 1 {
                        assert(snap_le_fn()(all[j], all[all.len() - 1]));
                    }
                }
                assert(out@ =~= seq![last]);
            }
            out
        },
    }
}

} // verus!