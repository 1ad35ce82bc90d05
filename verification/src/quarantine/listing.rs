use vstd::prelude::*;
use crate::installed::{lemma_text_lt_asymmetric, lemma_text_lt_irreflexive, lemma_text_lt_transitive, text_less, text_lt};
use crate::quarantine::types::QuarantineRecordState;
use crate::text::chars_of;

verus! {

/// One quarantined file as the user sees it.
#[derive(Clone, Debug, PartialEq, Eq)]
pub struct QuarantineRecord {
    pub record_id: String,
    pub file_name: String,
    pub rule_id: String,
    pub plan_id: String,
    pub created_at_ms: u64,
    pub size_bytes: u64,
    pub state: QuarantineRecordState,
    pub exportable: bool,
    pub source_retained: bool,
}

/// The newest quarantine records and how many records could not be read.
#[derive(Clone, Debug)]
pub struct QuarantineListResponse {
    pub records: Vec<QuarantineRecord>,
    pub corrupt_records: usize,
}

/// The state shown for a record: its journal's state while its object is
/// intact, damaged otherwise.
pub open spec fn shown_state(reconciled: QuarantineRecordState, object_is_valid: bool) -> QuarantineRecordState {
    if object_is_valid {
        reconciled
    } else {
        QuarantineRecordState::Damaged
    }
}

/// The record shown for a quarantined file: its state is the journal's while
/// its object is intact and damaged otherwise; it can be exported only when
/// its object is intact and it is committed or its source was retained; its
/// source counts as retained when the journal says so.
pub fn record_view(
    record_id: String,
    file_name: String,
    rule_id: String,
    plan_id: String,
    created_at_ms: u64,
    size_bytes: u64,
    reconciled: QuarantineRecordState,
    object_is_valid: bool,
) -> (r: QuarantineRecord)
    ensures
        r.record_id == record_id,
        r.file_name == file_name,
        r.rule_id == rule_id,
        r.plan_id == plan_id,
        r.created_at_ms == created_at_ms,
        r.size_bytes == size_bytes,
        r.state == shown_state(reconciled, object_is_valid),
        r.exportable == (object_is_valid && (reconciled == QuarantineRecordState::Committed
            || reconciled == QuarantineRecordState::SourceRetained)),
        r.source_retained == (reconciled == QuarantineRecordState::SourceRetained),
{
    let state = if object_is_valid { reconciled } else { QuarantineRecordState::Damaged };
    let exportable = object_is_valid && (state == QuarantineRecordState::Committed
        || state == QuarantineRecordState::SourceRetained);
    QuarantineRecord {
        record_id,
        file_name,
        rule_id,
        plan_id,
        created_at_ms,
        size_bytes,
        state,
        exportable,
        source_retained: reconciled == QuarantineRecordState::SourceRetained,
    }
}

/// The order of records: newest first, then by identifier.
pub open spec fn record_before(a: QuarantineRecord, b: QuarantineRecord) -> bool {
    a.created_at_ms > b.created_at_ms || (a.created_at_ms == b.created_at_ms && text_lt(a.record_id@, b.record_id@))
}

/// Whether records are in listing order.
pub open spec fn records_sorted(records: Seq<QuarantineRecord>) -> bool {
    forall|i: int, j: int| 0 <= i < j < records.len() ==> !record_before(#[trigger] records[j], #[trigger] records[i])
}

proof fn lemma_record_facts(a: QuarantineRecord, b: QuarantineRecord, c: QuarantineRecord)
    ensures
        record_before(a, b) ==> !record_before(b, a),
        record_before(a, b) && record_before(b, c) ==> record_before(a, c),
{
    lemma_text_lt_irreflexive(a.record_id@);
    if text_lt(a.record_id@, b.record_id@) {
        lemma_text_lt_asymmetric(a.record_id@, b.record_id@);
    }
    if text_lt(a.record_id@, b.record_id@) && text_lt(b.record_id@, c.record_id@) {
        lemma_text_lt_transitive(a.record_id@, b.record_id@, c.record_id@);
    }
}

fn record_less(a: &QuarantineRecord, b: &QuarantineRecord) -> (r: bool)
    ensures
        r == record_before(*a, *b),
{
    if a.created_at_ms != b.created_at_ms {
        return a.created_at_ms > b.created_at_ms;
    }
    text_less(&chars_of(a.record_id.as_str()), &chars_of(b.record_id.as_str()))
}

/// The records that were read, in order.
pub open spec fn readable(found: Seq<Option<QuarantineRecord>>) -> Seq<QuarantineRecord>
    decreases found.len(),
{
    if found.len() == 0 {
        seq![]
    } else {
        let rest = readable(found.drop_last());
        match found.last() {
            Some(record) => rest.push(record),
            None => rest,
        }
    }
}

/// How many records could not be read.
pub open spec fn unreadable(found: Seq<Option<QuarantineRecord>>) -> int
    decreases found.len(),
{
    if found.len() == 0 {
        0
    } else {
        unreadable(found.drop_last()) + if found.last() is None { 1int } else { 0int }
    }
}

fn sort_records(records: Vec<QuarantineRecord>) -> (r: Vec<QuarantineRecord>)
    ensures
        r@.to_multiset() == records@.to_multiset(),
        records_sorted(r@),
{
    let mut out: Vec<QuarantineRecord> = Vec::new();
    let ghost all = records@;
    let mut rest = records;
    let ghost mut taken: Seq<QuarantineRecord> = seq![];
    assert(all =~= taken + rest@);
    while rest.len() > 0
        invariant
            all == taken + rest@,
            out@.to_multiset() == taken.to_multiset(),
            records_sorted(out@),
        decreases rest@.len(),
    {
        let ghost before_rest = rest@;
        let record = rest.remove(0);
        let mut p: usize = 0;
        while p < out.len() && !record_less(&record, &out[p])
            invariant
                0 <= p <= out@.len(),
                forall|j: int| 0 <= j < p ==> !record_before(record, #[trigger] out@[j]),
            decreases out@.len() - p,
        {
            p = p + 1;
        }
        let ghost before = out@;
        proof {
            assert forall|a: int, b: int| 0 <= a < b < before.len() + 1 implies !record_before(
                #[trigger] before.insert(p as int, record)[b],
                #[trigger] before.insert(p as int, record)[a],
            ) by {
                let s = before.insert(p as int, record);
                if a < p && b < p {
                    assert(s[a] == before[a] && s[b] == before[b]);
                } else if a > p && b > p {
                    assert(s[a] == before[a - 1] && s[b] == before[b - 1]);
                } else if a < p && b == p {
                    assert(s[a] == before[a]);
                } else if a < p && b > p {
                    assert(s[a] == before[a] && s[b] == before[b - 1]);
                } else {
                    assert(s[b] == before[b - 1]);
                    let kp = before[p as int];
                    let kb = before[b - 1];
                    lemma_record_facts(record, kp, kb);
                    lemma_record_facts(kb, kp, record);
                    lemma_record_facts(kp, kb, record);
                    lemma_record_facts(record, kb, kp);
                    lemma_record_facts(kb, record, kp);
                    if b - 1 > p {
                        assert(!record_before(kb, kp));
                    }
                }
            }
        }
        out.insert(p, record);
        proof {
            vstd::seq_lib::to_multiset_insert(before, p as int, record);
            vstd::seq_lib::to_multiset_build(taken, record);
            assert(before_rest[0] == record);
            assert(all =~= taken.push(record) + rest@);
            taken = taken.push(record);
        }
    }
    assert(taken =~= all);
    out
}

/// Lists quarantine records: the readable ones newest first (then by
/// identifier), at most `limit` of them, and the number of unreadable ones.
pub fn list_records(found: Vec<Option<QuarantineRecord>>, limit: usize) -> (r: QuarantineListResponse)
    ensures
        r.corrupt_records == unreadable(found@),
        exists|sorted: Seq<QuarantineRecord>|
            #![trigger sorted.to_multiset()]
            sorted.to_multiset() == readable(found@).to_multiset() && records_sorted(sorted) && r.records@ == sorted.take(
                if sorted.len() > limit { limit as int } else { sorted.len() as int },
            ),
{
    let ghost all = found@;
    let n = found.len();
    let mut records: Vec<QuarantineRecord> = Vec::new();
    let mut corrupt: usize = 0;
    let mut rest = found;
    let ghost mut done: Seq<Option<QuarantineRecord>> = seq![];
    assert(all =~= done + rest@);
    while rest.len() > 0
        invariant
            all == done + rest@,
            all.len() == n,
            records@ == readable(done),
            corrupt == unreadable(done),
            corrupt <= done.len(),
        decreases rest@.len(),
    {
        let ghost before = rest@;
        let entry = rest.remove(0);
        proof {
            assert(before[0] == entry);
            assert(done.push(entry).drop_last() =~= done);
            assert(all =~= done.push(entry) + rest@);
        }
        match entry {
            Some(record) => records.push(record),
            None => corrupt = corrupt + 1,
        }
        proof {
            done = done.push(entry);
        }
    }
    assert(done =~= all);
    let mut sorted = sort_records(records);
    let ghost full = sorted@;
    sorted.truncate(limit);
    assert(sorted@ == full.take(if full.len() > limit { limit as int } else { full.len() as int }));
    QuarantineListResponse { records: sorted, corrupt_records: corrupt }
}

/// The most records one listing returns.
pub const MAX_LISTED_RECORDS: usize = 500;

/// How many records a listing asked for `requested` returns at most: at
/// least one and at most the listing cap.
pub fn list_limit(requested: usize) -> (r: usize)
    ensures
        r == if requested < 1 { 1 } else if requested > MAX_LISTED_RECORDS { MAX_LISTED_RECORDS } else { requested },
{
    if requested < 1 {
        1
    } else if requested > MAX_LISTED_RECORDS {
        MAX_LISTED_RECORDS
    } else {
        requested
    }
}

} // verus!
