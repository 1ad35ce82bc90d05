use vstd::prelude::*;
use crate::digest::{sha256, sha256_digest};
use crate::quarantine::types::{ErrorKind, JournalEntry, JournalEvent, QuarantineError, QUARANTINE_SCHEMA_VERSION};
use crate::text::{hex_bytes, hex_spec};

verus! {

pub const NEWLINE: u8 = 10;

pub const CARRIAGE_RETURN: u8 = 13;

/// The position of the first line feed at or after `from`, if any.
pub open spec fn newline_from(bytes: Seq<u8>, from: int) -> Option<int>
    decreases bytes.len() - from,
{
    if from < 0 || from >= bytes.len() {
        None
    } else if bytes[from] == NEWLINE {
        Some(from)
    } else {
        newline_from(bytes, from + 1)
    }
}

/// A raw line without the line feed, and without one carriage return before it.
pub open spec fn line_text(raw: Seq<u8>) -> Seq<u8> {
    if raw.len() > 0 && raw.last() == CARRIAGE_RETURN {
        raw.drop_last()
    } else {
        raw
    }
}

/// The refusal for a journal whose last line has no line feed.
pub open spec fn truncated_tail_message() -> Seq<char> {
    "quarantine journal has a truncated tail"@
}

/// The refusal for an empty line.
pub open spec fn empty_entry_message() -> Seq<char> {
    "quarantine journal contains an empty entry"@
}

/// The lines of a journal from byte `from` on, up to the first framing
/// fault, and that fault if there is one: a last line without a line feed,
/// or an empty line.
pub open spec fn frame_from(bytes: Seq<u8>, from: int) -> (Seq<Seq<u8>>, Option<Seq<char>>)
    decreases bytes.len() - from,
{
    if from < 0 || from >= bytes.len() {
        (seq![], None)
    } else {
        match newline_from(bytes, from) {
            None => (seq![], Some(truncated_tail_message())),
            Some(end) => {
                let line = line_text(bytes.subrange(from, end));
                if line.len() == 0 {
                    (seq![], Some(empty_entry_message()))
                } else if from < end + 1 && end < bytes.len() {
                    let rest = frame_from(bytes, end + 1);
                    (seq![line] + rest.0, rest.1)
                } else {
                    (seq![], None)
                }
            },
        }
    }
}

proof fn lemma_newline_from(bytes: Seq<u8>, from: int)
    requires
        0 <= from <= bytes.len(),
    ensures
        match newline_from(bytes, from) {
            Some(end) => from <= end < bytes.len() && bytes[end] == NEWLINE && forall|j: int| from <= j < end ==> bytes[j] != NEWLINE,
            None => forall|j: int| from <= j < bytes.len() ==> bytes[j] != NEWLINE,
        },
    decreases bytes.len() - from,
{
    if from < bytes.len() && bytes[from] != NEWLINE {
        lemma_newline_from(bytes, from + 1);
    }
}

fn find_newline(bytes: &[u8], from: usize) -> (r: Option<usize>)
    requires
        from <= bytes@.len(),
    ensures
        match r {
            Some(end) => newline_from(bytes@, from as int) == Some(end as int),
            None => newline_from(bytes@, from as int) is None,
        },
{
    let mut i = from;
    proof {
        lemma_newline_from(bytes@, from as int);
    }
    while i < bytes.len()
        invariant
            from <= i <= bytes@.len(),
            forall|j: int| from <= j < i ==> bytes@[j] != NEWLINE,
            newline_from(bytes@, from as int) == newline_from(bytes@, i as int),
        decreases bytes@.len() - i,
    {
        if bytes[i] == NEWLINE {
            return Some(i);
        }
        i = i + 1;
    }
    None
}

fn copy_range(bytes: &[u8], lo: usize, hi: usize) -> (r: Vec<u8>)
    requires
        lo <= hi <= bytes@.len(),
    ensures
        r@ == bytes@.subrange(lo as int, hi as int),
{
    let mut out: Vec<u8> = Vec::new();
    let mut i = lo;
    while i < hi
        invariant
            lo <= i <= hi <= bytes@.len(),
            out@ == bytes@.subrange(lo as int, i as int),
        decreases hi - i,
    {
        out.push(bytes[i]);
        assert(bytes@.subrange(lo as int, i + 1) =~= bytes@.subrange(lo as int, i as int).push(bytes@[i as int]));
        i = i + 1;
    }
    out
}

pub open spec fn line_views(lines: Seq<Vec<u8>>) -> Seq<Seq<u8>> {
    lines.map_values(|line: Vec<u8>| line@)
}

/// Splits journal bytes into lines, stopping at the first framing fault,
/// which is returned with the lines before it.
pub fn journal_lines(bytes: &[u8]) -> (r: (Vec<Vec<u8>>, Option<String>))
    ensures
        line_views(r.0@) == frame_from(bytes@, 0).0,
        match r.1 {
            Some(message) => frame_from(bytes@, 0).1 == Some(message@),
            None => frame_from(bytes@, 0).1 is None,
        },
{
    let mut lines: Vec<Vec<u8>> = Vec::new();
    let mut from: usize = 0;
    assert(line_views(lines@) =~= seq![]);
    while from < bytes.len()
        invariant
            from <= bytes@.len(),
            line_views(lines@) + frame_from(bytes@, from as int).0 == frame_from(bytes@, 0).0,
            frame_from(bytes@, from as int).1 == frame_from(bytes@, 0).1,
        decreases bytes@.len() - from,
    {
        let end = match find_newline(bytes, from) {
            None => {
                assert(frame_from(bytes@, from as int).0 =~= seq![]);
                assert(line_views(lines@) =~= line_views(lines@) + frame_from(bytes@, from as int).0);
                return (lines, Some("quarantine journal has a truncated tail".to_string()));
            },
            Some(end) => end,
        };
        proof {
            lemma_newline_from(bytes@, from as int);
        }
        let stop = if end > from && bytes[end - 1] == CARRIAGE_RETURN { end - 1 } else { end };
        assert(bytes@.subrange(from as int, stop as int) =~= line_text(bytes@.subrange(from as int, end as int)));
        if stop == from {
            assert(frame_from(bytes@, from as int).0 =~= seq![]);
            assert(line_views(lines@) =~= line_views(lines@) + frame_from(bytes@, from as int).0);
            return (lines, Some("quarantine journal contains an empty entry".to_string()));
        }
        let line = copy_range(bytes, from, stop);
        let ghost before = line_views(lines@);
        lines.push(line);
        proof {
            assert(line_views(lines@) =~= before.push(line@));
            let rest = frame_from(bytes@, end + 1);
            assert(frame_from(bytes@, from as int).0 == seq![line@] + rest.0);
            assert(before + (seq![line@] + rest.0) =~= before.push(line@) + rest.0);
        }
        from = end + 1;
    }
    assert(frame_from(bytes@, from as int).0 =~= seq![]);
    assert(line_views(lines@) =~= line_views(lines@) + frame_from(bytes@, from as int).0);
    (lines, None)
}

/// The digest that the entry after `line` must name.
pub open spec fn line_digest(line: Seq<u8>) -> Seq<char> {
    hex_spec(sha256_digest(line))
}

/// Why the `k`-th line does not continue a valid journal, if it does not:
/// it cannot be read as an entry, names another schema, breaks the sequence,
/// or does not name the digest of the line before it.
pub open spec fn entry_refusal(lines: Seq<Seq<u8>>, parsed: Seq<Option<JournalEntry>>, k: int) -> Option<Seq<char>> {
    match parsed[k] {
        None => Some("quarantine journal entry cannot be read"@),
        Some(entry) => if entry.schema_version != QUARANTINE_SCHEMA_VERSION {
            Some("unsupported quarantine journal schema"@)
        } else if entry.sequence != k + 1 {
            Some("quarantine journal sequence is not contiguous"@)
        } else if (match entry.previous_entry_sha256 {
            None => k != 0,
            Some(digest) => k == 0 || digest@ != line_digest(lines[k - 1]),
        }) {
            Some("quarantine journal hash chain is invalid"@)
        } else {
            None
        },
    }
}

/// Whether the first `n` lines form a valid journal.
pub open spec fn valid_prefix(lines: Seq<Seq<u8>>, parsed: Seq<Option<JournalEntry>>, n: int) -> bool {
    forall|k: int| 0 <= k < n ==> #[trigger] entry_refusal(lines, parsed, k) is None
}

/// Checks a journal's lines, as framed and as read: every entry must have the
/// current schema, number its position from 1 and name the SHA-256 of the
/// line before it (none for the first). A framing fault counts after the
/// lines before it. Returns the entries, or the first fault.
pub fn verify_journal(lines: &Vec<Vec<u8>>, parsed: Vec<Option<JournalEntry>>, framing_fault: Option<String>) -> (r: Result<Vec<JournalEntry>, QuarantineError>)
    requires
        parsed@.len() == lines@.len(),
    ensures
        match r {
            Ok(entries) => valid_prefix(line_views(lines@), parsed@, lines@.len() as int) && framing_fault is None
                && entries@.len() == lines@.len()
                && forall|k: int| 0 <= k < entries@.len() ==> parsed@[k] == Some(#[trigger] entries@[k]),
            Err(e) => e.kind == ErrorKind::InvalidData && (
                (exists|k: int| 0 <= k < lines@.len() && valid_prefix(line_views(lines@), parsed@, k)
                    && entry_refusal(line_views(lines@), parsed@, k) == Some(e.message@))
                || (valid_prefix(line_views(lines@), parsed@, lines@.len() as int)
                    && (framing_fault matches Some(m) && m@ == e.message@))),
        },
{
    let ghost views = line_views(lines@);
    let ghost all = parsed@;
    let n = parsed.len();
    let mut entries: Vec<JournalEntry> = Vec::new();
    let mut rest = parsed;
    let mut k: usize = 0;
    while rest.len() > 0
        invariant
            all == parsed@,
            all.len() == n,
            all.len() == lines@.len(),
            views == line_views(lines@),
            0 <= k <= all.len(),
            rest@ == all.skip(k as int),
            valid_prefix(views, all, k as int),
            entries@.len() == k,
            forall|j: int| 0 <= j < k ==> all[j] == Some(#[trigger] entries@[j]),
        decreases rest@.len(),
    {
        let ghost before = rest@;
        let item = rest.remove(0);
        proof {
            assert(before[0] == all[k as int]);
            assert(rest@ =~= all.skip(k + 1));
        }
        let entry = match item {
            None => {
                return Err(QuarantineError { kind: ErrorKind::InvalidData, message: "quarantine journal entry cannot be read".to_string() });
            },
            Some(entry) => entry,
        };
        if entry.schema_version != QUARANTINE_SCHEMA_VERSION {
            return Err(QuarantineError { kind: ErrorKind::InvalidData, message: "unsupported quarantine journal schema".to_string() });
        }
        if k as u64 >= u64::MAX || entry.sequence != (k as u64) + 1 {
            return Err(QuarantineError { kind: ErrorKind::InvalidData, message: "quarantine journal sequence is not contiguous".to_string() });
        }
        let chained = match &entry.previous_entry_sha256 {
            None => k == 0,
            Some(digest) => {
                if k == 0 {
                    false
                } else {
                    let expected = hex_bytes(sha256(lines[k - 1].as_slice()).as_slice());
                    assert(lines@[k - 1]@ == views[k - 1]);
                    crate::apps::vec_eq(&crate::text::chars_of(digest.as_str()), &crate::text::chars_of(expected.as_str()))
                }
            },
        };
        if !chained {
            return Err(QuarantineError { kind: ErrorKind::InvalidData, message: "quarantine journal hash chain is invalid".to_string() });
        }
        assert(entry_refusal(views, all, k as int) is None);
        entries.push(entry);
        proof {
            assert forall|j: int| 0 <= j < k + 1 implies #[trigger] entry_refusal(views, all, j) is None by {
                if j < k {
                    assert(valid_prefix(views, all, k as int));
                }
            }
        }
        k = k + 1;
    }
    match framing_fault {
        Some(message) => Err(QuarantineError { kind: ErrorKind::InvalidData, message }),
        None => Ok(entries),
    }
}

/// The entry that appending `event` at `occurred_at_ms` adds to a valid
/// journal whose last line is `last_line` (none for an empty journal).
pub fn next_entry(entry_count: u64, last_line: Option<&Vec<u8>>, event: JournalEvent, occurred_at_ms: u64) -> (r: JournalEntry)
    requires
        entry_count < u64::MAX,
    ensures
        r.schema_version == QUARANTINE_SCHEMA_VERSION,
        r.sequence == entry_count + 1,
        r.occurred_at_ms == occurred_at_ms,
        r.event == event,
        match last_line {
            None => r.previous_entry_sha256 is None,
            Some(line) => r.previous_entry_sha256 matches Some(d) && d@ == line_digest(line@),
        },
{
    let previous_entry_sha256 = match last_line {
        None => None,
        Some(line) => Some(hex_bytes(sha256(line.as_slice()).as_slice())),
    };
    JournalEntry {
        schema_version: QUARANTINE_SCHEMA_VERSION,
        sequence: entry_count + 1,
        previous_entry_sha256,
        occurred_at_ms,
        event,
    }
}

/// A journal extended by the entry that `next_entry` makes for it, written
/// as `new_line`, stays valid.
pub proof fn lemma_append_keeps_chain(lines: Seq<Seq<u8>>, parsed: Seq<Option<JournalEntry>>, new_line: Seq<u8>, entry: JournalEntry)
    requires
        parsed.len() == lines.len(),
        valid_prefix(lines, parsed, lines.len() as int),
        entry.schema_version == QUARANTINE_SCHEMA_VERSION,
        entry.sequence == lines.len() + 1,
        lines.len() == 0 ==> entry.previous_entry_sha256 is None,
        lines.len() > 0 ==> (entry.previous_entry_sha256 matches Some(d) && d@ == line_digest(lines.last())),
    ensures
        valid_prefix(lines.push(new_line), parsed.push(Some(entry)), (lines.len() + 1) as int),
{
    let l2 = lines.push(new_line);
    let p2 = parsed.push(Some(entry));
    assert forall|k: int| 0 <= k < lines.len() + 1 implies #[trigger] entry_refusal(l2, p2, k) is None by {
        if k < lines.len() {
            assert(p2[k] == parsed[k]);
            assert(entry_refusal(lines, parsed, k) is None);
            if k > 0 {
                assert(l2[k - 1] == lines[k - 1]);
            }
        } else {
            assert(p2[k] == Some(entry));
            if k > 0 {
                assert(l2[k - 1] == lines.last());
            }
        }
    }
}

} // verus!
