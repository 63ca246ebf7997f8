use vstd::prelude::*;
use crate::naming::{decode_name, parse_snapshot_name};
use crate::stamp::Stamp;

verus! {

broadcast use vstd::seq_lib::group_to_multiset_ensures;

/// One entry of the destination directory, as listed by the caller.
#[derive(Clone, Debug)]
pub struct DirEntry {
    /// The entry's file name.
    pub name: String,
    /// The entry's full path.
    pub path: String,
    /// Whether the entry is a directory.
    pub is_dir: bool,
}

/// The snapshots among the entries, in listing order: the directories whose
/// names decode, each with its stamp and path.
pub open spec fn snapshots_of(entries: Seq<DirEntry>) -> Seq<(Stamp, String)>
    decreases entries.len(),
{
    if entries.len() == 0 {
        Seq::empty()
    } else {
        let rest = snapshots_of(entries.drop_last());
        let e = entries.last();
        if e.is_dir && decode_name(e.name@) is Some {
            rest.push((decode_name(e.name@).unwrap(), e.path))
        } else {
            rest
        }
    }
}

/// Oldest first: stamps never decrease along the sequence.
pub open spec fn sorted_by_time(s: Seq<(Stamp, String)>) -> bool {
    forall|i: int, j: int| 0 <= i < j < s.len() ==> s[i].0.key() <= s[j].0.key()
}

/// How many of `len` snapshots exceed a cap of `max`.
pub open spec fn excess(len: int, max: int) -> int {
    if len > max {
        len - max
    } else {
        0
    }
}

/// The snapshots that pruning deletes from a sorted list: the oldest ones
/// beyond the cap.
pub open spec fn pruned(s: Seq<(Stamp, String)>, max: int) -> Seq<(Stamp, String)> {
    s.take(excess(s.len() as int, max))
}

/// The snapshots that survive pruning of a sorted list.
pub open spec fn survivors(s: Seq<(Stamp, String)>, max: int) -> Seq<(Stamp, String)> {
    s.skip(excess(s.len() as int, max))
}

/// The snapshots among the listed entries, sorted oldest first: every
/// directory whose name decodes, with its stamp, and nothing else.
pub fn get_backups_sorted(entries: &Vec<DirEntry>) -> (r: Vec<(Stamp, String)>)
    ensures
        sorted_by_time(r@),
        r@.to_multiset() == snapshots_of(entries@).to_multiset(),
        forall|i: int| 0 <= i < r@.len() ==> (#[trigger] r@[i]).0.wf(),
{
    let mut r: Vec<(Stamp, String)> = Vec::new();
    let mut i: usize = 0;
    while i < entries.len()
        invariant
            i <= entries@.len(),
            sorted_by_time(r@),
            r@.to_multiset() == snapshots_of(entries@.take(i as int)).to_multiset(),
            forall|q: int| 0 <= q < r@.len() ==> (#[trigger] r@[q]).0.wf(),
        decreases entries@.len() - i,
    {
        let e = &entries[i];
        assert(entries@.take(i + 1).drop_last() =~= entries@.take(i as int));
        assert(entries@.take(i + 1).last() == *e);
        if e.is_dir {
            match parse_snapshot_name(e.name.as_str()) {
                Some(t) => {
                    let k = t.sort_key();
                    let mut p: usize = 0;
                    while p < r.len() && r[p].0.sort_key() <= k
                        invariant
                            p <= r@.len(),
                            t.wf(),
                            k == t.key(),
                            forall|q: int| 0 <= q < r@.len() ==> (#[trigger] r@[q]).0.wf(),
                            forall|q: int| 0 <= q < p ==> (#[trigger] r@[q]).0.key() <= k,
                        decreases r@.len() - p,
                    {
                        p = p + 1;
                    }
                    let ghost old_r = r@;
                    let item = (t, e.path.clone());
                    r.insert(p, item);
                    assert forall|a: int, b: int| 0 <= a < b < r@.len() implies r@[a].0.key()
                        <= r@[b].0.key() by {
                        if b < p {
                            assert(r@[a] == old_r[a] && r@[b] == old_r[b]);
                        } else if b == p {
                            assert(r@[a] == old_r[a]);
                        } else if a == p {
                            assert(r@[b] == old_r[b - 1]);
                            assert(old_r[p as int].0.key() > k);
                        } else if a < p {
                            assert(r@[a] == old_r[a] && r@[b] == old_r[b - 1]);
                        } else {
                            assert(r@[a] == old_r[a - 1] && r@[b] == old_r[b - 1]);
                        }
                    }
                    assert(r@ == old_r.insert(p as int, item));
                },
                None => {},
            }
        }
        i = i + 1;
    }
    assert(entries@.take(entries@.len() as int) =~= entries@);
    r
}

/// The paths of the snapshots that pruning deletes from a sorted list, oldest
/// first: as many of the oldest as exceed `max_backups`.
pub fn backups_to_remove(sorted: &Vec<(Stamp, String)>, max_backups: u8) -> (r: Vec<String>)
    ensures
        r@ == pruned(sorted@, max_backups as int).map_values(|p: (Stamp, String)| p.1),
{
    let n = sorted.len();
    let cap = max_backups as usize;
    let count: usize = if n > cap {
        n - cap
    } else {
        0
    };
    let ghost want = pruned(sorted@, max_backups as int).map_values(|p: (Stamp, String)| p.1);
    let mut r: Vec<String> = Vec::new();
    let mut i: usize = 0;
    while i < count
        invariant
            i <= count,
            count == excess(n as int, max_backups as int),
            n == sorted@.len(),
            want == pruned(sorted@, max_backups as int).map_values(|p: (Stamp, String)| p.1),
            r@ == want.take(i as int),
        decreases count - i,
    {
        r.push(sorted[i].1.clone());
        assert(r@ =~= want.take(i + 1));
        i = i + 1;
    }
    assert(want.take(count as int) =~= want);
    r
}

/// Pruning a sorted list keeps the most recent snapshots: as many as the cap
/// allows, or all where there are no more; each one deleted is no newer than
/// each one kept; and the newest one is always kept.
pub proof fn lemma_pruning_keeps_newest(s: Seq<(Stamp, String)>, max: int)
    requires
        sorted_by_time(s),
        max >= 1,
    ensures
        pruned(s, max) + survivors(s, max) == s,
        survivors(s, max).len() == if s.len() < max {
            s.len() as int
        } else {
            max
        },
        forall|i: int, j: int|
            0 <= i < pruned(s, max).len() && 0 <= j < survivors(s, max).len() ==> (#[trigger] pruned(
                s,
                max,
            )[i]).0.key() <= (#[trigger] survivors(s, max)[j]).0.key(),
        s.len() > 0 ==> survivors(s, max).last() == s.last(),
{
    let ex = excess(s.len() as int, max);
    assert(pruned(s, max) + survivors(s, max) =~= s);
    assert forall|i: int, j: int|
        0 <= i < pruned(s, max).len() && 0 <= j < survivors(s, max).len() implies (#[trigger] pruned(
        s,
        max,
    )[i]).0.key() <= (#[trigger] survivors(s, max)[j]).0.key() by {
        assert(pruned(s, max)[i] == s[i]);
        assert(survivors(s, max)[j] == s[ex + j]);
    }
}

/// After a snapshot newer than every other is added, the sorted list ends
/// with it, preceded by the earlier snapshots.
pub proof fn lemma_newest_sorts_last(
    before: Seq<(Stamp, String)>,
    x: (Stamp, String),
    after: Seq<(Stamp, String)>,
)
    requires
        sorted_by_time(after),
        after.to_multiset() == before.to_multiset().insert(x),
        forall|i: int| 0 <= i < before.len() ==> (#[trigger] before[i]).0.key() < x.0.key(),
    ensures
        after.len() == before.len() + 1,
        after.last() == x,
        after.drop_last().to_multiset() == before.to_multiset(),
{
    assert(after.to_multiset().contains(x));
    let j = choose|j: int| 0 <= j < after.len() && after[j] == x;
    let y = after.last();
    if y != x {
        assert(after.to_multiset().contains(y));
        assert(before.to_multiset().contains(y));
        let q = choose|q: int| 0 <= q < before.len() && before[q] == y;
        assert(before[q].0.key() < x.0.key());
        if j != after.len() - 1 {
            assert(after[j].0.key() <= after[after.len() - 1].0.key());
        }
    }
    assert(after.drop_last().push(x) =~= after);
    let m1 = after.drop_last().to_multiset();
    let m2 = before.to_multiset();
    assert(m1.insert(x) == m2.insert(x));
    assert forall|v| #[trigger] m1.count(v) == m2.count(v) by {
        assert(m1.insert(x).count(v) == m2.insert(x).count(v));
    }
    assert(m1 =~= m2);
    vstd::seq_lib::to_multiset_len(after);
    vstd::seq_lib::to_multiset_len(before);
}

/// Adding a snapshot newer than all others and then pruning leaves as many
/// snapshots as the cap allows, or all of them where there are no more; the
/// new one is among them, and none deleted is newer than any kept.
pub proof fn lemma_retention_after_new_snapshot(
    before: Seq<(Stamp, String)>,
    x: (Stamp, String),
    after: Seq<(Stamp, String)>,
    max: int,
)
    requires
        sorted_by_time(after),
        after.to_multiset() == before.to_multiset().insert(x),
        forall|i: int| 0 <= i < before.len() ==> (#[trigger] before[i]).0.key() < x.0.key(),
        max >= 1,
    ensures
        survivors(after, max).len() == if before.len() + 1 < max {
            before.len() + 1int
        } else {
            max
        },
        survivors(after, max).last() == x,
        forall|i: int, j: int|
            0 <= i < pruned(after, max).len() && 0 <= j < survivors(after, max).len() ==> (#[trigger] pruned(
                after,
                max,
            )[i]).0.key() <= (#[trigger] survivors(after, max)[j]).0.key(),
{
    lemma_newest_sorts_last(before, x, after);
    lemma_pruning_keeps_newest(after, max);
}

} // verus!
