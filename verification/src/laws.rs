//! What holds of the store whatever it was given: statements over the models
//! that the contracts of the other modules speak of, each with its proof.

use crate::log::{in_span, is_range, log_wf, without_span};
use crate::state_machine::StateMachineView;
use crate::store::MemStoreView;
use crate::types::{ClientRequestView, ClientResponseView, EntryView, SnapshotView};
use vstd::prelude::*;

verus! {

/// A range read has one possible answer: two sequences that are both the
/// part of `log` with index in `[start, stop)`, in order, are the same.
pub proof fn lemma_range_is_unique(
    a: Seq<EntryView>,
    b: Seq<EntryView>,
    log: Map<u64, EntryView>,
    start: u64,
    stop: u64,
)
    requires
        log_wf(log),
        is_range(a, log, start, stop),
        is_range(b, log, start, stop),
    ensures
        a == b,
    decreases a.len(),
{
    if a.len() == 0 {
        if b.len() > 0 {
            let k = b[0].index;
            assert(log.contains_key(k));
            assert(a.contains(log[k]));
        }
        assert(a =~= b);
    } else {
        let m = a.last().index;
        assert(log.contains_key(m));
        assert(b.contains(log[m]));
        let i = choose|i: int| 0 <= i < b.len() && b[i] == log[m];
        let n = b.last().index;
        assert(log.contains_key(n));
        assert(a.contains(log[n]));
        let j = choose|j: int| 0 <= j < a.len() && a[j] == log[n];
        assert(a[j].index == n);
        assert(b[i].index == m);
        if j < a.len() - 1 {
            assert(a[j].index < a[a.len() - 1].index);
        }
        if i < b.len() - 1 {
            assert(b[i].index < b[b.len() - 1].index);
        }
        assert(m == n);
        assert(a.last() == b.last());
        let a0 = a.drop_last();
        let b0 = b.drop_last();
        lemma_shorter_range(a, log, start, stop);
        lemma_shorter_range(b, log, start, stop);
        lemma_range_is_unique(a0, b0, log, start, m);
        assert(a =~= a0.push(a.last()));
        assert(b =~= b0.push(b.last()));
    }
}

/// A range read without its last entry is the range read that stops at that entry.
proof fn lemma_shorter_range(a: Seq<EntryView>, log: Map<u64, EntryView>, start: u64, stop: u64)
    requires
        log_wf(log),
        is_range(a, log, start, stop),
        a.len() > 0,
    ensures
        is_range(a.drop_last(), log, start, a.last().index),
{
    let m = a.last().index;
    let a0 = a.drop_last();
    assert forall|i: int| 0 <= i < a0.len() implies start <= (#[trigger] a0[i]).index < m by {
        assert(a0[i] == a[i]);
        assert(a[i].index < a[a.len() - 1].index);
    }
    assert forall|i: int| 0 <= i < a0.len() implies log.contains_key((#[trigger] a0[i]).index)
        && log[a0[i].index] == a0[i] by {
        assert(a0[i] == a[i]);
    }
    assert forall|i: int, j: int| 0 <= i < j < a0.len() implies (#[trigger] a0[i]).index < (
    #[trigger] a0[j]).index by {
        assert(a0[i] == a[i]);
        assert(a0[j] == a[j]);
    }
    assert forall|k: u64| start <= k < m && #[trigger] log.contains_key(k) implies a0.contains(
        log[k],
    ) by {
        assert(a.contains(log[k]));
        let i = choose|i: int| 0 <= i < a.len() && a[i] == log[k];
        if i == a.len() - 1 {
            assert(a[i].index == m);
            assert(log[k].index == k);
        }
        assert(a0[i] == log[k]);
    }
}

/// A range read whose start is not below its stop is empty.
pub proof fn lemma_empty_range(out: Seq<EntryView>, log: Map<u64, EntryView>, start: u64, stop: u64)
    requires
        is_range(out, log, start, stop),
        start >= stop,
    ensures
        out.len() == 0,
{
    if out.len() > 0 {
        assert(start <= out[0].index < stop);
    }
}

/// Every entry of a well-formed log with index in `[start, stop)` is in the
/// range read, and nothing else is.
pub proof fn lemma_range_holds_exactly(
    out: Seq<EntryView>,
    log: Map<u64, EntryView>,
    start: u64,
    stop: u64,
    e: EntryView,
)
    requires
        log_wf(log),
        is_range(out, log, start, stop),
    ensures
        out.contains(e) <==> start <= e.index < stop && log.contains_key(e.index) && log[e.index] == e,
{
}

/// Deleting a span removes the entries whose index lies in it and leaves
/// every other entry as it was.
pub proof fn lemma_delete_removes_exactly(log: Map<u64, EntryView>, start: u64, stop: Option<u64>, k: u64)
    ensures
        without_span(log, start, stop).contains_key(k) <==> log.contains_key(k) && !in_span(
            k,
            start,
            stop,
        ),
        without_span(log, start, stop).contains_key(k) ==> without_span(log, start, stop)[k] == log[k],
{
}

/// Deleting with a stop below the start deletes nothing.
pub proof fn lemma_delete_backwards_is_noop(log: Map<u64, EntryView>, start: u64, stop: u64)
    requires
        start > stop,
    ensures
        without_span(log, start, Some(stop)) == log,
{
}

/// A write that repeats the serial of the write applied just before it, for
/// the same client, changes neither the statuses nor the recorded results,
/// whatever status it carries, and is answered with the result of the first.
/// The two answers are the same exactly where the first names no previous
/// status; the second never names one.
pub proof fn lemma_replay_changes_nothing(
    sm: StateMachineView,
    first_index: u64,
    first: ClientRequestView,
    second_index: u64,
    second: ClientRequestView,
)
    requires
        first.client == second.client,
        first.serial == second.serial,
    ensures
        ({
            let once = sm.apply(first_index, first);
            let twice = once.apply(second_index, second);
            &&& twice.client_status == once.client_status
            &&& twice.client_serial_responses == once.client_serial_responses
            &&& twice.last_applied_log == second_index
            &&& once.response(second).result == sm.response(first).result
            &&& once.response(second).prev is None
            &&& once.response(second) == sm.response(first) <==> sm.response(first).prev is None
        }),
{
}

/// A first write for a client followed by a write with another serial for
/// the same client: the second status is on record, and the second answer
/// names the first status as the previous one.
pub proof fn lemma_second_write_replaces_first(
    sm: StateMachineView,
    first_index: u64,
    first: ClientRequestView,
    second_index: u64,
    second: ClientRequestView,
)
    requires
        first.client == second.client,
        first.serial != second.serial,
        !sm.is_replay(first),
    ensures
        ({
            let once = sm.apply(first_index, first);
            let twice = once.apply(second_index, second);
            &&& twice.status_of(first.client) == Some(second.status)
            &&& once.response(second) == (ClientResponseView {
                prev: Some(first.status),
                result: Some(second.status),
            })
        }),
{
}

/// Applying an entry at or above the last applied index never moves that
/// index back; it then stands at the entry's index.
pub proof fn lemma_apply_moves_forward(sm: StateMachineView, index: u64, req: ClientRequestView)
    requires
        sm.last_applied_log <= index,
    ensures
        sm.last_applied_log <= sm.apply(index, req).last_applied_log == index,
{
}

/// A write for one client leaves the status of every other client alone.
pub proof fn lemma_apply_touches_one_client(
    sm: StateMachineView,
    index: u64,
    req: ClientRequestView,
    other: Seq<char>,
)
    requires
        other != req.client,
    ensures
        sm.apply(index, req).status_of(other) == sm.status_of(other),
{
}

/// After compaction, the log up to and including the last applied index
/// holds one entry: the snapshot pointer at that index. The snapshot on
/// record covers that index and carries the bytes that compaction was given.
pub proof fn lemma_compaction_leaves_one_pointer(store: MemStoreView, data: Seq<u8>, out: Seq<EntryView>)
    requires
        log_wf(store.log),
        store.can_compact(),
        store.sm.last_applied_log < u64::MAX,
        is_range(out, store.compacted(data).log, 0, (store.sm.last_applied_log + 1) as u64),
    ensures
        out.len() == 1,
        out[0].index == store.sm.last_applied_log,
        out[0].payload is SnapshotPointer,
        store.compacted(data).current_snapshot == Some(store.compaction_snapshot(data)),
        store.compaction_snapshot(data).index == store.sm.last_applied_log,
        store.compaction_snapshot(data).data == data,
        store.compacted(data).sm == store.sm,
        log_wf(store.compacted(data).log),
{
    let last = store.sm.last_applied_log;
    let after = store.compacted(data).log;
    assert(after.contains_key(last));
    if out.len() > 1 {
        assert(out[0].index < out[1].index);
    }
}

/// Entries above the last applied index outlive compaction unchanged.
pub proof fn lemma_compaction_keeps_later_entries(store: MemStoreView, data: Seq<u8>, k: u64)
    requires
        store.log.contains_key(k),
        k > store.sm.last_applied_log,
    ensures
        store.compacted(data).log.contains_key(k),
        store.compacted(data).log[k] == store.log[k],
{
}

/// After a snapshot was installed with nothing to keep, the log holds the
/// snapshot pointer at `index` and nothing else.
pub proof fn lemma_install_leaves_one_pointer(
    store: MemStoreView,
    index: u64,
    term: u64,
    id: Seq<char>,
    snapshot: SnapshotView,
    sm: StateMachineView,
)
    ensures
        ({
            let after = store.installed(index, term, None, id, snapshot, sm);
            &&& after.log.dom() == set![index]
            &&& after.log[index] == EntryView::snapshot_pointer(
                index,
                term,
                id,
                store.membership_through(index),
            )
            &&& after.sm == sm
            &&& after.current_snapshot == Some(snapshot)
        }),
{
}

/// After a snapshot was installed with entries to keep, the log holds the
/// snapshot pointer at `index` and, unchanged, the entries it had above
/// `through`; nothing else.
pub proof fn lemma_install_keeps_later_entries(
    store: MemStoreView,
    index: u64,
    term: u64,
    through: u64,
    id: Seq<char>,
    snapshot: SnapshotView,
    sm: StateMachineView,
    k: u64,
)
    ensures
        ({
            let after = store.installed(index, term, Some(through), id, snapshot, sm);
            &&& after.log.contains_key(k) <==> k == index || (store.log.contains_key(k) && k > through)
            &&& after.log.contains_key(index) && after.log[index] == EntryView::snapshot_pointer(
                index,
                term,
                id,
                store.membership_through(index),
            )
            &&& k != index && after.log.contains_key(k) ==> after.log[k] == store.log[k]
        }),
{
}

/// Installing a snapshot keeps a well-formed log well-formed.
pub proof fn lemma_install_keeps_log_wf(
    store: MemStoreView,
    index: u64,
    term: u64,
    delete_through: Option<u64>,
    id: Seq<char>,
    snapshot: SnapshotView,
    sm: StateMachineView,
)
    requires
        log_wf(store.log),
    ensures
        log_wf(store.installed(index, term, delete_through, id, snapshot, sm).log),
{
}

} // verus!
