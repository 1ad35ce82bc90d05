use vstd::prelude::*;
use crate::quarantine::types::{ErrorKind, JournalEntry, JournalEvent, QuarantineError, QuarantineRecordState};

verus! {

/// Whether the protocol allows `event` at position `i` of a journal whose
/// earlier events are `prefix`.
///
/// The protocol is Prepared, Copying, ObjectVerified, ObjectCommitted; then
/// either SourceRetained (end), or SourceDeletePrepared followed by either
/// SourceRetained or Committed (end).
pub open spec fn allowed_at(prefix: Seq<JournalEvent>, i: int, event: JournalEvent) -> bool {
    if i == 0 {
        event == JournalEvent::Prepared
    } else if i == 1 {
        event == JournalEvent::Copying
    } else if i == 2 {
        event == JournalEvent::ObjectVerified
    } else if i == 3 {
        event == JournalEvent::ObjectCommitted
    } else if i == 4 {
        event == JournalEvent::SourceRetained || event == JournalEvent::SourceDeletePrepared
    } else if i == 5 {
        prefix[4] == JournalEvent::SourceDeletePrepared && (event == JournalEvent::SourceRetained
            || event == JournalEvent::Committed)
    } else {
        false
    }
}

/// Every event of `events` is allowed where it stands.
pub open spec fn protocol_prefix(events: Seq<JournalEvent>) -> bool {
    forall|j: int| 0 <= j < events.len() ==> #[trigger] allowed_at(events, j, events[j])
}

/// A journal follows the protocol when it is non-empty and each event is
/// allowed where it stands.
pub open spec fn follows_protocol(events: Seq<JournalEvent>) -> bool {
    events.len() > 0 && protocol_prefix(events)
}

pub open spec fn is_terminal(event: JournalEvent) -> bool {
    event == JournalEvent::Committed || event == JournalEvent::SourceRetained
}

/// The state that a protocol-following journal ends in, read from its last event.
pub open spec fn state_after(last: JournalEvent) -> QuarantineRecordState {
    match last {
        JournalEvent::Committed => QuarantineRecordState::Committed,
        JournalEvent::SourceRetained | JournalEvent::ObjectCommitted => QuarantineRecordState::SourceRetained,
        _ => QuarantineRecordState::RecoveryRequired,
    }
}

/// A journal that follows the protocol but stops before the object was
/// committed (three events or fewer), or right after the source delete was
/// prepared, needs recovery; one that ends at the committed object or at the
/// retained source leaves the source retained; one that ends committed is
/// committed.
pub proof fn lemma_journal_outcome(events: Seq<JournalEvent>)
    requires
        follows_protocol(events),
    ensures
        events.len() <= 3 ==> state_after(events.last()) == QuarantineRecordState::RecoveryRequired,
        events.last() == JournalEvent::SourceDeletePrepared
            ==> state_after(events.last()) == QuarantineRecordState::RecoveryRequired,
        events.len() == 4 ==> state_after(events.last()) == QuarantineRecordState::SourceRetained,
        events.last() == JournalEvent::SourceRetained
            ==> state_after(events.last()) == QuarantineRecordState::SourceRetained,
        events.last() == JournalEvent::Committed
            ==> state_after(events.last()) == QuarantineRecordState::Committed,
{
    let i = events.len() - 1;
    assert(allowed_at(events, i, events[i]));
}

pub open spec fn events_of(entries: Seq<JournalEntry>) -> Seq<JournalEvent> {
    entries.map_values(|e: JournalEntry| e.event)
}

fn invalid_data(message: &str) -> (e: QuarantineError)
    ensures
        e.kind == ErrorKind::InvalidData,
        e.message@ == message@,
{
    QuarantineError { kind: ErrorKind::InvalidData, message: message.to_string() }
}

/// The event that the protocol allows after `event`, looking one entry ahead
/// for the only branch the protocol has.
fn next_expected(event: JournalEvent, next_is_retained: bool) -> (e: JournalEvent)
    ensures
        event == JournalEvent::Prepared ==> e == JournalEvent::Copying,
        event == JournalEvent::Copying ==> e == JournalEvent::ObjectVerified,
        event == JournalEvent::ObjectVerified ==> e == JournalEvent::ObjectCommitted,
        event == JournalEvent::ObjectCommitted ==> e == (if next_is_retained {
            JournalEvent::SourceRetained
        } else {
            JournalEvent::SourceDeletePrepared
        }),
        event == JournalEvent::SourceDeletePrepared ==> e == (if next_is_retained {
            JournalEvent::SourceRetained
        } else {
            JournalEvent::Committed
        }),
{
    match event {
        JournalEvent::Prepared => JournalEvent::Copying,
        JournalEvent::Copying => JournalEvent::ObjectVerified,
        JournalEvent::ObjectVerified => JournalEvent::ObjectCommitted,
        JournalEvent::ObjectCommitted => {
            if next_is_retained {
                JournalEvent::SourceRetained
            } else {
                JournalEvent::SourceDeletePrepared
            }
        },
        JournalEvent::SourceDeletePrepared => {
            if next_is_retained {
                JournalEvent::SourceRetained
            } else {
                JournalEvent::Committed
            }
        },
        JournalEvent::Committed => JournalEvent::Committed,
        JournalEvent::SourceRetained => JournalEvent::SourceRetained,
    }
}

/// Replays a record's journal and reports the state it ends in.
///
/// A journal is accepted exactly when it is non-empty and every event is one
/// that the protocol allows at its position; every other journal is invalid
/// data.
pub fn derive_state(entries: &[JournalEntry]) -> (result: Result<QuarantineRecordState, QuarantineError>)
    ensures
        result is Ok <==> follows_protocol(events_of(entries@)),
        result matches Ok(state) ==> state == state_after(entries@.last().event),
        result matches Ok(state) ==> {
            let last = entries@.last().event;
            &&& last == JournalEvent::Committed ==> state == QuarantineRecordState::Committed
            &&& last == JournalEvent::SourceRetained || last == JournalEvent::ObjectCommitted
                ==> state == QuarantineRecordState::SourceRetained
            &&& !(last == JournalEvent::Committed || last == JournalEvent::SourceRetained
                || last == JournalEvent::ObjectCommitted) ==> state == QuarantineRecordState::RecoveryRequired
        },
        result matches Err(e) ==> e.kind == ErrorKind::InvalidData,
{
    let n = entries.len();
    let ghost events = events_of(entries@);
    if n == 0 {
        return Err(invalid_data("quarantine journal is empty"));
    }
    let mut expected = JournalEvent::Prepared;
    let mut index: usize = 0;
    while index < n
        invariant
            n == entries@.len(),
            n > 0,
            events == events_of(entries@),
            events.len() == n,
            0 <= index <= n,
            protocol_prefix(events.take(index as int)),
            forall|j: int| 0 <= j < index && is_terminal(#[trigger] events[j]) ==> j == n - 1,
            index < n ==> ((expected == events[index as int]) <==> allowed_at(
                events,
                index as int,
                events[index as int],
            )),
        decreases n - index,
    {
        let event = entries[index].event;
        assert(event == events[index as int]);
        if event != expected {
            assert(!protocol_prefix(events)) by {
                assert(!allowed_at(events, index as int, events[index as int]));
            }
            return Err(invalid_data("invalid quarantine transition"));
        }
        assert(protocol_prefix(events.take(index + 1))) by {
            assert forall|j: int| 0 <= j < index + 1 implies #[trigger] allowed_at(
                events.take(index + 1),
                j,
                events.take(index + 1)[j],
            ) by {
                if j < index {
                    assert(allowed_at(events.take(index as int), j, events.take(index as int)[j]));
                }
            }
        }
        if matches!(event, JournalEvent::Committed) || matches!(event, JournalEvent::SourceRetained) {
            if index + 1 != n {
                assert(!protocol_prefix(events)) by {
                    let k = index + 1;
                    if protocol_prefix(events) {
                        assert(allowed_at(events, k as int, events[k as int]));
                        assert(allowed_at(events, index as int, events[index as int]));
                    }
                }
                return Err(invalid_data("quarantine journal contains an entry after a terminal event"));
            }
            expected = event;
        } else {
            let next_is_retained = index + 1 < n && matches!(entries[index + 1].event, JournalEvent::SourceRetained);
            expected = next_expected(event, next_is_retained);
        }
        proof {
            let pre = events.take(index as int + 1);
            assert forall|j: int| 0 <= j <= index implies allowed_at(events, j, events[j]) by {
                assert(allowed_at(pre, j, pre[j]));
            }
        }
        index = index + 1;
    }
    assert(events.take(n as int) == events);
    let last = entries[n - 1].event;
    assert(last == entries@.last().event);
    Ok(
        match last {
            JournalEvent::Committed => QuarantineRecordState::Committed,
            JournalEvent::SourceRetained | JournalEvent::ObjectCommitted => QuarantineRecordState::SourceRetained,
            _ => QuarantineRecordState::RecoveryRequired,
        },
    )
}

} // verus!
