use std::cmp::Ordering;
use vstd::prelude::*;

use crate::order::{compare_keys, key_lt, lemma_key_lt_irreflexive, lemma_key_lt_transitive};
use crate::record::{RecordView, StatusRecord};
use crate::request::RequestTarget;

verus! {

/// Rows in strictly increasing order of worker identity (so no identity repeats).
pub open spec fn ids_sorted(rows: Seq<RecordView>) -> bool {
    forall|i: int, j: int|
        0 <= i < j < rows.len() ==> key_lt(#[trigger] rows[i].worker_id, #[trigger] rows[j].worker_id)
}

/// Some row belongs to worker `k`.
pub open spec fn holds_id(rows: Seq<RecordView>, k: Seq<char>) -> bool {
    exists|i: int| 0 <= i < rows.len() && #[trigger] rows[i].worker_id == k
}

/// The rows as a map from worker identity to record.
pub open spec fn as_map(rows: Seq<RecordView>) -> Map<Seq<char>, RecordView> {
    Map::new(
        |k: Seq<char>| holds_id(rows, k),
        |k: Seq<char>| rows[choose|i: int| 0 <= i < rows.len() && #[trigger] rows[i].worker_id == k],
    )
}

/// The records merged from a sequence of replies, in order, into `start`.
pub open spec fn merged(
    start: Map<Seq<char>, RecordView>,
    replies: Seq<RecordView>,
) -> Map<Seq<char>, RecordView>
    decreases replies.len(),
{
    if replies.len() == 0 {
        start
    } else {
        merged(start, replies.drop_last()).insert(replies.last().worker_id, replies.last())
    }
}

proof fn lemma_sorted_ids_differ(rows: Seq<RecordView>, i: int, j: int)
    requires
        ids_sorted(rows),
        0 <= i < rows.len(),
        0 <= j < rows.len(),
        i != j,
    ensures
        rows[i].worker_id != rows[j].worker_id,
{
    lemma_key_lt_irreflexive(rows[i].worker_id);
    lemma_key_lt_irreflexive(rows[j].worker_id);
    if i < j {
        assert(key_lt(rows[i].worker_id, rows[j].worker_id));
    } else {
        assert(key_lt(rows[j].worker_id, rows[i].worker_id));
    }
}

/// In sorted rows, the map holds each row under its identity.
pub proof fn lemma_map_at(rows: Seq<RecordView>, i: int)
    requires
        ids_sorted(rows),
        0 <= i < rows.len(),
    ensures
        as_map(rows).contains_key(rows[i].worker_id),
        as_map(rows)[rows[i].worker_id] == rows[i],
{
    let k = rows[i].worker_id;
    assert(holds_id(rows, k));
    let j = choose|j: int| 0 <= j < rows.len() && #[trigger] rows[j].worker_id == k;
    if j != i {
        lemma_sorted_ids_differ(rows, i, j);
    }
}

proof fn lemma_replace_row(rows: Seq<RecordView>, i: int, r: RecordView)
    requires
        ids_sorted(rows),
        0 <= i < rows.len(),
        rows[i].worker_id == r.worker_id,
    ensures
        ids_sorted(rows.update(i, r)),
        as_map(rows.update(i, r)) == as_map(rows).insert(r.worker_id, r),
{
    let n = rows.update(i, r);
    assert(ids_sorted(n)) by {
        assert forall|a: int, b: int| 0 <= a < b < n.len() implies key_lt(
            #[trigger] n[a].worker_id,
            #[trigger] n[b].worker_id,
        ) by {
            assert(key_lt(rows[a].worker_id, rows[b].worker_id));
        }
    }
    let m = as_map(rows).insert(r.worker_id, r);
    assert forall|k: Seq<char>| #[trigger] as_map(n).contains_key(k) == m.contains_key(k) by {
        if holds_id(n, k) {
            let j = choose|j: int| 0 <= j < n.len() && #[trigger] n[j].worker_id == k;
            if j != i {
                assert(rows[j].worker_id == k);
            }
        }
        if holds_id(rows, k) {
            let j = choose|j: int| 0 <= j < rows.len() && #[trigger] rows[j].worker_id == k;
            assert(n[j].worker_id == k);
        }
        if k == r.worker_id {
            assert(n[i].worker_id == k);
        }
    }
    assert forall|k: Seq<char>| #[trigger] as_map(n).contains_key(k) implies as_map(n)[k] == m[k] by {
        let j = choose|j: int| 0 <= j < n.len() && #[trigger] n[j].worker_id == k;
        lemma_map_at(n, j);
        if j != i {
            assert(rows[j].worker_id == k);
            lemma_map_at(rows, j);
            lemma_sorted_ids_differ(n, i, j);
        }
    }
    assert(as_map(n) =~= m);
}

proof fn lemma_insert_row(rows: Seq<RecordView>, i: int, r: RecordView)
    requires
        ids_sorted(rows),
        0 <= i <= rows.len(),
        forall|j: int| 0 <= j < i ==> key_lt(#[trigger] rows[j].worker_id, r.worker_id),
        i < rows.len() ==> key_lt(r.worker_id, rows[i].worker_id),
    ensures
        ids_sorted(rows.insert(i, r)),
        as_map(rows.insert(i, r)) == as_map(rows).insert(r.worker_id, r),
{
    let n = rows.insert(i, r);
    assert forall|j: int| i <= j < rows.len() implies key_lt(r.worker_id, #[trigger] rows[j].worker_id) by {
        if j > i {
            lemma_key_lt_transitive(r.worker_id, rows[i].worker_id, rows[j].worker_id);
        }
    }
    assert(ids_sorted(n)) by {
        assert forall|a: int, b: int| 0 <= a < b < n.len() implies key_lt(
            #[trigger] n[a].worker_id,
            #[trigger] n[b].worker_id,
        ) by {
            if b < i {
                assert(key_lt(rows[a].worker_id, rows[b].worker_id));
            } else if b == i {
            } else if a < i {
                lemma_key_lt_transitive(rows[a].worker_id, r.worker_id, rows[b - 1].worker_id);
            } else if a == i {
            } else {
                assert(key_lt(rows[a - 1].worker_id, rows[b - 1].worker_id));
            }
        }
    }
    let m = as_map(rows).insert(r.worker_id, r);
    assert forall|k: Seq<char>| #[trigger] as_map(n).contains_key(k) == m.contains_key(k) by {
        if holds_id(n, k) {
            let j = choose|j: int| 0 <= j < n.len() && #[trigger] n[j].worker_id == k;
            if j < i {
                assert(rows[j].worker_id == k);
            } else if j > i {
                assert(rows[j - 1].worker_id == k);
            }
        }
        if holds_id(rows, k) {
            let j = choose|j: int| 0 <= j < rows.len() && #[trigger] rows[j].worker_id == k;
            if j < i {
                assert(n[j].worker_id == k);
            } else {
                assert(n[j + 1].worker_id == k);
            }
        }
        if k == r.worker_id {
            assert(n[i].worker_id == k);
        }
    }
    assert forall|k: Seq<char>| #[trigger] as_map(n).contains_key(k) implies as_map(n)[k] == m[k] by {
        let j = choose|j: int| 0 <= j < n.len() && #[trigger] n[j].worker_id == k;
        lemma_map_at(n, j);
        if j < i {
            assert(rows[j].worker_id == k);
            lemma_map_at(rows, j);
            lemma_key_lt_irreflexive(k);
        } else if j > i {
            assert(rows[j - 1].worker_id == k);
            lemma_map_at(rows, j - 1);
            lemma_key_lt_irreflexive(k);
        }
    }
    assert(as_map(n) =~= m);
}

proof fn lemma_merged_domain(replies: Seq<RecordView>, k: Seq<char>)
    ensures
        merged(Map::empty(), replies).contains_key(k) <==> holds_id(replies, k),
    decreases replies.len(),
{
    if replies.len() > 0 {
        let init = replies.drop_last();
        lemma_merged_domain(init, k);
        if holds_id(init, k) {
            let j = choose|j: int| 0 <= j < init.len() && #[trigger] init[j].worker_id == k;
            assert(replies[j].worker_id == k);
        }
        if holds_id(replies, k) {
            let j = choose|j: int| 0 <= j < replies.len() && #[trigger] replies[j].worker_id == k;
            if j < init.len() {
                assert(init[j].worker_id == k);
            }
        }
    }
}

proof fn lemma_merged_value(replies: Seq<RecordView>, i: int)
    requires
        0 <= i < replies.len(),
        forall|j: int| i < j < replies.len() ==> (#[trigger] replies[j]).worker_id != replies[i].worker_id,
    ensures
        merged(Map::empty(), replies)[replies[i].worker_id] == replies[i],
    decreases replies.len(),
{
    let init = replies.drop_last();
    if i < init.len() {
        assert(replies[replies.len() - 1].worker_id != replies[i].worker_id);
        assert forall|j: int| i < j < init.len() implies (#[trigger] init[j]).worker_id
            != init[i].worker_id by {
            assert(replies[j].worker_id != replies[i].worker_id);
        }
        lemma_merged_value(init, i);
    }
}

/// Last write wins: after any sequence of merges into an empty snapshot, the
/// snapshot holds a record for exactly the identities that were merged, and for
/// each of them the record that was merged last.
pub proof fn lemma_last_write_wins(replies: Seq<RecordView>)
    ensures
        forall|k: Seq<char>| #[trigger]
            merged(Map::empty(), replies).contains_key(k) <==> holds_id(replies, k),
        forall|i: int|
            0 <= i < replies.len() && (forall|j: int|
                i < j < replies.len() ==> (#[trigger] replies[j]).worker_id != replies[i].worker_id)
                ==> merged(Map::empty(), replies)[(#[trigger] replies[i]).worker_id] == replies[i],
{
    assert forall|k: Seq<char>| #[trigger]
        merged(Map::empty(), replies).contains_key(k) <==> holds_id(replies, k) by {
        lemma_merged_domain(replies, k);
    }
    assert forall|i: int|
        0 <= i < replies.len() && (forall|j: int|
            i < j < replies.len() ==> (#[trigger] replies[j]).worker_id != replies[i].worker_id)
            implies merged(Map::empty(), replies)[(#[trigger] replies[i]).worker_id] == replies[i] by {
        lemma_merged_value(replies, i);
    }
}

/// The rows of a snapshot whose records were merged from `replies` in order:
/// one row per identity merged and no other, no identity twice, and each row
/// the record that was merged last for its identity.
pub proof fn lemma_snapshot_last_write_wins(rows: Seq<RecordView>, replies: Seq<RecordView>)
    requires
        ids_sorted(rows),
        as_map(rows) == merged(Map::empty(), replies),
    ensures
        forall|k: Seq<char>| holds_id(rows, k) <==> holds_id(replies, k),
        forall|i: int, j: int|
            0 <= i < j < rows.len() ==> (#[trigger] rows[i]).worker_id != (#[trigger] rows[j]).worker_id,
        forall|i: int, p: int|
            0 <= i < rows.len() && 0 <= p < replies.len() && (#[trigger] replies[p]).worker_id
                == (#[trigger] rows[i]).worker_id && (forall|q: int|
                p < q < replies.len() ==> (#[trigger] replies[q]).worker_id != replies[p].worker_id)
                ==> rows[i] == replies[p],
{
    assert forall|k: Seq<char>| holds_id(rows, k) <==> holds_id(replies, k) by {
        lemma_merged_domain(replies, k);
    }
    assert forall|i: int, j: int| 0 <= i < j < rows.len() implies (#[trigger] rows[i]).worker_id
        != (#[trigger] rows[j]).worker_id by {
        lemma_sorted_ids_differ(rows, i, j);
    }
    assert forall|i: int, p: int|
        0 <= i < rows.len() && 0 <= p < replies.len() && (#[trigger] replies[p]).worker_id
            == (#[trigger] rows[i]).worker_id && (forall|q: int|
            p < q < replies.len() ==> (#[trigger] replies[q]).worker_id != replies[p].worker_id)
            implies rows[i] == replies[p] by {
        lemma_map_at(rows, i);
        lemma_merged_value(replies, p);
    }
}

/// The records kept from a sequence of decoded replies, in order, for a request
/// with the given target: a reply is merged when it decoded and the target
/// admits its worker, as `Snapshot::handle_reply` does.
pub open spec fn handled(
    start: Map<Seq<char>, RecordView>,
    target: RequestTarget,
    replies: Seq<Option<RecordView>>,
) -> Map<Seq<char>, RecordView>
    decreases replies.len(),
{
    if replies.len() == 0 {
        start
    } else {
        let m = handled(start, target, replies.drop_last());
        let last = replies.last();
        if last is Some && target.admits(last->Some_0.worker_id) {
            m.insert(last->Some_0.worker_id, last->Some_0)
        } else {
            m
        }
    }
}

proof fn lemma_handled_admitted(target: RequestTarget, replies: Seq<Option<RecordView>>, k: Seq<char>)
    requires
        handled(Map::empty(), target, replies).contains_key(k),
    ensures
        target.admits(k),
    decreases replies.len(),
{
    if replies.len() > 0 {
        let last = replies.last();
        if !(last is Some && target.admits(last->Some_0.worker_id) && last->Some_0.worker_id == k) {
            lemma_handled_admitted(target, replies.drop_last(), k);
        }
    }
}

/// Only targeted workers are merged: starting from an empty snapshot, whatever
/// replies arrive for a request, every worker in the snapshot is one that the
/// request's target admits (for a targeted request for `w1`, only `w1`).
pub proof fn lemma_only_targeted_workers_merged(target: RequestTarget, replies: Seq<Option<RecordView>>)
    ensures
        forall|k: Seq<char>| #[trigger] handled(Map::empty(), target, replies).contains_key(k) ==> target.admits(k),
{
    assert forall|k: Seq<char>| #[trigger] handled(Map::empty(), target, replies).contains_key(k) implies target.admits(k) by {
        lemma_handled_admitted(target, replies, k);
    }
}

/// The workers heard from in the current collection window, one record per
/// worker, kept in increasing order of identity.
pub struct Snapshot {
    entries: Vec<StatusRecord>,
}

impl View for Snapshot {
    type V = Seq<RecordView>;

    closed spec fn view(&self) -> Seq<RecordView> {
        self.entries@.map_values(|r: StatusRecord| r@)
    }
}

impl Snapshot {
    /// Rows sorted by identity: established by `new`, kept by every method.
    pub open spec fn well_formed(&self) -> bool {
        ids_sorted(self@)
    }

    /// An empty snapshot.
    pub fn new() -> (r: Snapshot)
        ensures
            r@ == Seq::<RecordView>::empty(),
            r.well_formed(),
    {
        let r = Snapshot { entries: Vec::new() };
        assert(r@ =~= Seq::<RecordView>::empty());
        r
    }

    /// Number of workers in the snapshot.
    pub fn len(&self) -> (r: usize)
        ensures
            r == self@.len(),
    {
        self.entries.len()
    }

    /// The record in row `i`.
    pub fn row(&self, i: usize) -> (r: &StatusRecord)
        requires
            i < self@.len(),
        ensures
            r@ == self@[i as int],
    {
        &self.entries[i]
    }

    /// Empties the snapshot for a new collection window.
    pub fn clear(&mut self)
        ensures
            final(self)@ == Seq::<RecordView>::empty(),
            final(self).well_formed(),
    {
        self.entries = Vec::new();
        assert(self@ =~= Seq::<RecordView>::empty());
    }

    /// Inserts `record`, replacing any earlier record of the same worker.
    pub fn merge(&mut self, record: StatusRecord)
        requires
            old(self).well_formed(),
        ensures
            final(self).well_formed(),
            as_map(final(self)@) == as_map(old(self)@).insert(record@.worker_id, record@),
    {
        let ghost rows = self@;
        let ghost r = record@;
        let n = self.entries.len();
        let mut i: usize = 0;
        while i < n
            invariant
                n == self.entries@.len(),
                rows == self@,
                rows == old(self)@,
                r == record@,
                ids_sorted(rows),
                i <= n,
                forall|j: int| 0 <= j < i ==> key_lt(#[trigger] rows[j].worker_id, r.worker_id),
            decreases n - i,
        {
            assert(self.entries@[i as int]@ == rows[i as int]);
            match compare_keys(self.entries[i].worker_id.as_str(), record.worker_id.as_str()) {
                Ordering::Less => {},
                Ordering::Equal => {
                    proof {
                        lemma_replace_row(rows, i as int, r);
                    }
                    let _old = self.entries.remove(i);
                    self.entries.insert(i, record);
                    assert(self@ =~= rows.update(i as int, r));
                    return;
                },
                Ordering::Greater => {
                    proof {
                        crate::order::lemma_key_lt_total(rows[i as int].worker_id, r.worker_id);
                        lemma_insert_row(rows, i as int, r);
                    }
                    self.entries.insert(i, record);
                    assert(self@ =~= rows.insert(i as int, r));
                    return;
                },
            }
            i = i + 1;
        }
        proof {
            lemma_insert_row(rows, i as int, r);
        }
        self.entries.push(record);
        assert(self@ =~= rows.insert(i as int, r));
    }

    /// Takes a decoded reply for a request with the given target: merges it when
    /// the reply decoded and comes from a worker the request was meant for, and
    /// otherwise leaves the snapshot as it was. Returns whether it merged.
    pub fn handle_reply(&mut self, target: &RequestTarget, reply: Option<StatusRecord>) -> (r: bool)
        requires
            old(self).well_formed(),
        ensures
            r == (reply matches Some(rec) && target.admits(rec@.worker_id)),
            r ==> as_map(final(self)@) == as_map(old(self)@).insert(
                reply->Some_0@.worker_id,
                reply->Some_0@,
            ),
            !r ==> final(self)@ == old(self)@,
            final(self).well_formed(),
    {
        match reply {
            Some(rec) => {
                if target.accepts(rec.worker_id.as_str()) {
                    self.merge(rec);
                    true
                } else {
                    false
                }
            },
            None => false,
        }
    }
}

} // verus!
