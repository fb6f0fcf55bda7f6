//! The output stream of a scan: progress ticks while entries are processed,
//! then the sorted records in bounded batches, then one completion event.

use crate::order::sorted_recs;
use crate::record::EntryRecord;
use crate::sort::sort_records;
use crate::{BATCH_SIZE, PROGRESS_INTERVAL};
use vstd::prelude::*;

verus! {

broadcast use vstd::seq_lib::group_to_multiset_ensures;

/// One message of a scan's output stream.
pub enum ScanEvent {
    /// Cumulative number of entries processed so far.
    Progress(usize),
    /// One contiguous chunk of the sorted records.
    Batch(Vec<EntryRecord>),
    /// Total number of records reported; closes a successful scan.
    Complete(usize),
}

/// Number of batch events that `n` records are split into.
pub open spec fn batch_count(n: int) -> int {
    (n + BATCH_SIZE as int - 1) / (BATCH_SIZE as int)
}

/// Number of progress events emitted while `n` entries are processed.
pub open spec fn progress_count(n: int) -> int {
    n / (PROGRESS_INTERVAL as int)
}

/// Length of the `i`-th of the batches that `n` records are split into:
/// every batch is full except that the last one holds what remains.
pub open spec fn batch_len(n: int, i: int) -> int {
    if i < batch_count(n) - 1 {
        BATCH_SIZE as int
    } else {
        n - BATCH_SIZE as int * (batch_count(n) - 1)
    }
}

/// The records carried by the batch events of `evs`, concatenated in
/// emission order.
pub open spec fn events_records(evs: Seq<ScanEvent>) -> Seq<EntryRecord>
    decreases evs.len(),
{
    if evs.len() == 0 {
        Seq::empty()
    } else {
        (if evs[0] is Batch {
            evs[0]->Batch_0@
        } else {
            Seq::<EntryRecord>::empty()
        }) + events_records(evs.drop_first())
    }
}

proof fn lemma_events_records_concat(a: Seq<ScanEvent>, b: Seq<ScanEvent>)
    ensures
        events_records(a + b) == events_records(a) + events_records(b),
    decreases a.len(),
{
    if a.len() == 0 {
        assert(a + b =~= b);
        assert(events_records(a) + events_records(b) =~= events_records(b));
    } else {
        assert((a + b).drop_first() =~= a.drop_first() + b);
        lemma_events_records_concat(a.drop_first(), b);
        assert(events_records(a + b) =~= events_records(a) + events_records(b));
    }
}

proof fn lemma_events_records_push(evs: Seq<ScanEvent>, e: ScanEvent)
    ensures
        events_records(evs.push(e)) == events_records(evs) + (if e is Batch {
            e->Batch_0@
        } else {
            Seq::<EntryRecord>::empty()
        }),
{
    assert(evs.push(e) =~= evs + seq![e]);
    lemma_events_records_concat(evs, seq![e]);
    assert(seq![e].drop_first() =~= Seq::<ScanEvent>::empty());
    assert(events_records(seq![e].drop_first()) == events_records(Seq::<ScanEvent>::empty()));
    assert(events_records(Seq::<ScanEvent>::empty()) =~= Seq::<EntryRecord>::empty());
    assert(seq![e][0] == e);
    assert(events_records(seq![e]) =~= (if e is Batch {
        e->Batch_0@
    } else {
        Seq::<EntryRecord>::empty()
    }));
}

proof fn lemma_events_records_no_batch(evs: Seq<ScanEvent>)
    requires
        forall|i: int| 0 <= i < evs.len() ==> !((#[trigger] evs[i]) is Batch),
    ensures
        events_records(evs) == Seq::<EntryRecord>::empty(),
    decreases evs.len(),
{
    if evs.len() > 0 {
        lemma_events_records_no_batch(evs.drop_first());
        assert(events_records(evs) =~= Seq::<EntryRecord>::empty());
    }
}

/// The event sequence that a successful scan of `entries` produces: one
/// progress tick for every full interval of entries processed, then the
/// records, sorted, in order-preserving batches of at most `BATCH_SIZE`
/// (all but the last exactly full), then one completion event carrying the
/// total record count.
pub open spec fn scan_output_ok(entries: Seq<EntryRecord>, evs: Seq<ScanEvent>) -> bool {
    let n = entries.len() as int;
    let p = progress_count(n);
    let b = batch_count(n);
    &&& evs.len() == p + b + 1
    &&& (forall|i: int| 0 <= i < p ==> (#[trigger] evs[i]) is Progress)
    &&& (forall|i: int|
        0 <= i < p ==> (#[trigger] evs[i])->Progress_0 == PROGRESS_INTERVAL as int * (i + 1))
    &&& (forall|i: int| 0 <= i < b ==> (#[trigger] evs[p + i]) is Batch)
    &&& (forall|i: int| 0 <= i < b ==> (#[trigger] evs[p + i])->Batch_0@.len() == batch_len(n, i))
    &&& sorted_recs(events_records(evs))
    &&& events_records(evs).to_multiset() == entries.to_multiset()
    &&& evs[p + b] is Complete
    &&& evs[p + b]->Complete_0 == n
}

/// Sorts the collected records and lays out the tail of the stream: the
/// batch events followed by the completion event, with no progress ticks.
pub fn finish_events(entries: Vec<EntryRecord>) -> (evs: Vec<ScanEvent>)
    ensures
        evs@.len() == batch_count(entries@.len() as int) + 1,
        forall|i: int| 0 <= i < evs@.len() - 1 ==> (#[trigger] evs@[i]) is Batch,
        forall|i: int|
            0 <= i < evs@.len() - 1 ==> (#[trigger] evs@[i])->Batch_0@.len() == batch_len(
                entries@.len() as int,
                i,
            ),
        sorted_recs(events_records(evs@)),
        events_records(evs@).to_multiset() == entries@.to_multiset(),
        evs@[evs@.len() - 1] is Complete,
        evs@[evs@.len() - 1]->Complete_0 == entries@.len(),
{
    let ghost n = entries@.len() as int;
    let total = entries.len();
    let sorted = sort_records(entries);
    let ghost sorted_seq = sorted@;
    let mut rest = sorted;
    let mut evs: Vec<ScanEvent> = Vec::new();
    while rest.len() > BATCH_SIZE
        invariant
            events_records(evs@) + rest@ =~= sorted_seq,
            evs@.len() * BATCH_SIZE as int + rest@.len() == n,
            sorted_seq.len() == n,
            forall|i: int| 0 <= i < evs@.len() ==> (#[trigger] evs@[i]) is Batch,
            forall|i: int|
                0 <= i < evs@.len() ==> (#[trigger] evs@[i])->Batch_0@.len() == BATCH_SIZE as int,
        decreases rest@.len(),
    {
        let ghost evs_before = evs@;
        let ghost rest_before = rest@;
        let tail = rest.split_off(BATCH_SIZE);
        let head = rest;
        rest = tail;
        proof {
            assert(head@ + rest@ =~= rest_before);
        }
        evs.push(ScanEvent::Batch(head));
        proof {
            lemma_events_records_push(evs_before, ScanEvent::Batch(head));
            assert(events_records(evs@) + rest@ =~= sorted_seq);
        }
    }
    let ghost full = evs@.len() as int;
    if rest.len() > 0 {
        let ghost evs_before = evs@;
        evs.push(ScanEvent::Batch(rest));
        proof {
            lemma_events_records_push(evs_before, ScanEvent::Batch(rest));
            assert(events_records(evs@) + Seq::<EntryRecord>::empty() =~= events_records(evs@));
        }
    }
    proof {
        assert(events_records(evs@) =~= sorted_seq);
        // the number of batches matches batch_count(n)
        if n == full * BATCH_SIZE as int {
            vstd::arithmetic::div_mod::lemma_fundamental_div_mod_converse(
                n + BATCH_SIZE as int - 1,
                BATCH_SIZE as int,
                full,
                BATCH_SIZE as int - 1,
            );
        } else {
            vstd::arithmetic::div_mod::lemma_fundamental_div_mod_converse(
                n + BATCH_SIZE as int - 1,
                BATCH_SIZE as int,
                full + 1,
                n - full * BATCH_SIZE as int - 1,
            );
        }
    }
    let ghost evs_before = evs@;
    evs.push(ScanEvent::Complete(total));
    proof {
        lemma_events_records_push(evs_before, ScanEvent::Complete(total));
        assert(events_records(evs@) =~= events_records(evs_before));
        assert(events_records(evs@) =~= sorted_seq);
    }
    evs
}

/// Lays out the full event stream of a successful scan of `entries`: the
/// progress ticks that processing the entries in order produces, then the
/// sorted records in batches, then the completion event.
pub fn scan_events(entries: Vec<EntryRecord>) -> (evs: Vec<ScanEvent>)
    ensures
        scan_output_ok(entries@, evs@),
{
    let n = entries.len();
    let ghost ni = n as int;
    let mut evs: Vec<ScanEvent> = Vec::new();
    let mut c: usize = 0;
    while n - c >= PROGRESS_INTERVAL
        invariant
            c <= n,
            c == evs@.len() * PROGRESS_INTERVAL as int,
            forall|i: int| 0 <= i < evs@.len() ==> (#[trigger] evs@[i]) is Progress,
            forall|i: int|
                0 <= i < evs@.len() ==> (#[trigger] evs@[i])->Progress_0 == PROGRESS_INTERVAL as int
                    * (i + 1),
        decreases n - c,
    {
        c = c + PROGRESS_INTERVAL;
        evs.push(ScanEvent::Progress(c));
    }
    proof {
        vstd::arithmetic::div_mod::lemma_fundamental_div_mod_converse(
            ni,
            PROGRESS_INTERVAL as int,
            evs@.len() as int,
            ni - c,
        );
        assert(evs@.len() == progress_count(ni));
    }
    let ghost prefix = evs@;
    let mut tail = finish_events(entries);
    let ghost tail_seq = tail@;
    evs.append(&mut tail);
    proof {
        assert(evs@ =~= prefix + tail_seq);
        lemma_events_records_concat(prefix, tail_seq);
        lemma_events_records_no_batch(prefix);
        assert(events_records(evs@) =~= events_records(tail_seq));
        let p = progress_count(ni);
        let b = batch_count(ni);
        assert forall|i: int| 0 <= i < b implies (#[trigger] evs@[p + i]) is Batch
            && evs@[p + i]->Batch_0@.len() == batch_len(ni, i) by {
            assert(evs@[p + i] == tail_seq[i]);
        }
        assert(evs@[p + b] == tail_seq[b]);
    }
    evs
}

/// True when a progress event is due after `processed` entries have been
/// read, counting in enumeration order.
pub fn progress_due(processed: usize) -> (r: bool)
    ensures
        r == (processed > 0 && processed as int % PROGRESS_INTERVAL as int == 0),
{
    processed > 0 && processed % PROGRESS_INTERVAL == 0
}

/// The progress ticks of a scan's stream are exactly the counts at which a
/// progress event falls due while `n` entries are processed in order: a
/// count `c` is a due point if and only if some progress event of the
/// stream carries it.
pub proof fn lemma_progress_due_matches_stream(n: int, c: int)
    requires
        1 <= c <= n,
    ensures
        (c % PROGRESS_INTERVAL as int == 0) <==> (exists|i: int|
            0 <= i < progress_count(n) && c == #[trigger] (PROGRESS_INTERVAL as int * (i + 1))),
{
    let interval = PROGRESS_INTERVAL as int;
    if c % interval == 0 {
        let q = c / interval;
        vstd::arithmetic::div_mod::lemma_fundamental_div_mod(c, interval);
        assert(c == interval * q);
        vstd::arithmetic::div_mod::lemma_div_is_ordered(c, n, interval);
        assert(q <= progress_count(n));
        assert(q >= 1) by (nonlinear_arith)
            requires
                c == interval * q,
                c >= 1,
                interval > 0,
        ;
        assert(0 <= q - 1 < progress_count(n) && c == interval * ((q - 1) + 1));
    }
    if exists|i: int| 0 <= i < progress_count(n) && c == #[trigger] (interval * (i + 1)) {
        let i = choose|i: int| 0 <= i < progress_count(n) && c == #[trigger] (interval * (i + 1));
        vstd::arithmetic::div_mod::lemma_fundamental_div_mod_converse(c, interval, i + 1, 0);
    }
}

/// Batch partition law: the batch payloads of a scan's output, concatenated
/// in emission order, are exactly the scanned records in sorted order; no
/// batch exceeds `BATCH_SIZE` records, and every batch but the last is full.
pub proof fn lemma_batch_partition(entries: Seq<EntryRecord>, evs: Seq<ScanEvent>)
    requires
        scan_output_ok(entries, evs),
    ensures
        sorted_recs(events_records(evs)),
        events_records(evs).to_multiset() == entries.to_multiset(),
        forall|i: int|
            0 <= i < batch_count(entries.len() as int) ==> (#[trigger] evs[progress_count(
                entries.len() as int,
            ) + i])->Batch_0@.len() <= BATCH_SIZE as int,
        forall|i: int|
            0 <= i < batch_count(entries.len() as int) - 1 ==> (#[trigger] evs[progress_count(
                entries.len() as int,
            ) + i])->Batch_0@.len() == BATCH_SIZE as int,
{
    let n = entries.len() as int;
    let b = batch_count(n);
    if b > 0 {
        vstd::arithmetic::div_mod::lemma_fundamental_div_mod(n + BATCH_SIZE as int - 1,
            BATCH_SIZE as int);
        assert(batch_len(n, b - 1) <= BATCH_SIZE as int);
    }
}

/// Progress monotonicity: the progress values of a scan's output are
/// strictly increasing multiples of `PROGRESS_INTERVAL`, and none exceeds
/// the number of entries processed.
pub proof fn lemma_progress_monotone(entries: Seq<EntryRecord>, evs: Seq<ScanEvent>, i: int, j: int)
    requires
        scan_output_ok(entries, evs),
        0 <= i < progress_count(entries.len() as int),
        i <= j < progress_count(entries.len() as int),
    ensures
        evs[i]->Progress_0 as int % PROGRESS_INTERVAL as int == 0,
        i < j ==> evs[i]->Progress_0 < evs[j]->Progress_0,
        evs[i]->Progress_0 <= entries.len(),
{
    let n = entries.len() as int;
    vstd::arithmetic::div_mod::lemma_fundamental_div_mod(n, PROGRESS_INTERVAL as int);
    assert(evs[i]->Progress_0 == PROGRESS_INTERVAL as int * (i + 1));
}

/// Completion count law: the completion event of a scan's output carries
/// exactly the total number of records across all its batches, which is the
/// number of scanned entries.
pub proof fn lemma_completion_count(entries: Seq<EntryRecord>, evs: Seq<ScanEvent>)
    requires
        scan_output_ok(entries, evs),
    ensures
        evs[progress_count(entries.len() as int) + batch_count(entries.len() as int)]->Complete_0
            == events_records(evs).len(),
        events_records(evs).len() == entries.len(),
{
    assert(events_records(evs).to_multiset().len() == entries.to_multiset().len());
}

/// Every record a scan's output carries is one of the scanned records, so a
/// well-formed input yields only well-formed records: a directory is always
/// reported with size zero.
pub proof fn lemma_output_records_wf(entries: Seq<EntryRecord>, evs: Seq<ScanEvent>)
    requires
        scan_output_ok(entries, evs),
        forall|i: int| 0 <= i < entries.len() ==> (#[trigger] entries[i]).wf(),
    ensures
        forall|i: int|
            0 <= i < events_records(evs).len() ==> (#[trigger] events_records(evs)[i]).wf(),
{
    let out = events_records(evs);
    assert forall|i: int| 0 <= i < out.len() implies (#[trigger] out[i]).wf() by {
        assert(out.contains(out[i]));
        assert(out.to_multiset().count(out[i]) > 0);
        assert(entries.to_multiset().count(out[i]) > 0);
        assert(entries.contains(out[i]));
        let k = choose|k: int| 0 <= k < entries.len() && entries[k] == out[i];
        assert(entries[k].wf());
    }
}

} // verus!
