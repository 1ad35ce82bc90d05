use vstd::prelude::*;
use crate::quarantine::reconcile::protocol_prefix;
use crate::quarantine::reconcile::allowed_at;
use crate::quarantine::types::{JournalEvent, StageResult, MAX_QUARANTINE_FILE_BYTES};
use crate::cleanup_plan::ids::{format_id, hyphenated, new_random_id};
use crate::text::chars_of;

verus! {

/// What staging one file waits for: the outcome of the action it asked for.
#[derive(Clone, Copy, Debug, PartialEq, Eq, Structural)]
pub enum StagePhase {
    CheckingSource,
    PreparingRepository,
    JournalingPrepared,
    JournalingCopying,
    CopyingToObject,
    JournalingVerified,
    RereadingObject,
    WritingManifest,
    JournalingObjectCommitted,
    RecheckingSource,
    RehashingSource,
    FinalCheckingSource,
    JournalingDeletePrepared,
    RemovingSource,
    ConfirmingSource,
    ConfirmingContent,
    FinalConfirmingSource,
    JournalingRetained,
    JournalingCommitted,
    DiscardingObject,
    Finished,
}

/// An action that staging asks the caller to perform.
#[derive(Debug)]
pub enum StageAction {
    /// Check that the source is still the file that was scanned.
    ValidateSource,
    /// Create the quarantine repository's directories.
    PrepareRepository,
    /// Append this event to the record's journal and make it durable.
    AppendJournal(JournalEvent),
    /// Create the record's object and copy the source into it; the outcome is
    /// the SHA-256 of what was copied.
    CopySourceToObject,
    /// Read the object back; the outcome is its SHA-256.
    HashObject,
    /// Write the record's manifest naming this SHA-256.
    WriteManifest(String),
    /// Read the source again; the outcome is its SHA-256.
    HashSource,
    /// Delete the source file.
    RemoveSource,
    /// Remove the record's object; the outcome is ignored.
    DiscardObject,
    /// Staging is over with this result.
    Finish(Result<StageResult, String>),
}

/// The outcome of the action performed last.
#[derive(Debug)]
pub enum StepOutcome {
    Done,
    Hashed(String),
    Failed(String),
}

/// Where the staging of one file stands. `issued` holds the journal events
/// asked for so far.
pub struct StagingState {
    pub phase: StagePhase,
    pub record_id: String,
    pub size_bytes: u64,
    pub source_hash: String,
    pub delete_error: String,
    pub pending: String,
    pub issued: Ghost<Seq<JournalEvent>>,
}

/// The events of a record whose object is committed.
pub open spec fn committed_object_events() -> Seq<JournalEvent> {
    seq![JournalEvent::Prepared, JournalEvent::Copying, JournalEvent::ObjectVerified, JournalEvent::ObjectCommitted]
}

/// The events asked for by the time staging waits in `phase`.
pub open spec fn issued_in(phase: StagePhase, issued: Seq<JournalEvent>) -> bool {
    match phase {
        StagePhase::CheckingSource | StagePhase::PreparingRepository => issued == Seq::<JournalEvent>::empty(),
        StagePhase::JournalingPrepared => issued == seq![JournalEvent::Prepared],
        StagePhase::JournalingCopying | StagePhase::CopyingToObject => issued == seq![JournalEvent::Prepared, JournalEvent::Copying],
        StagePhase::JournalingVerified | StagePhase::RereadingObject | StagePhase::WritingManifest =>
            issued == seq![JournalEvent::Prepared, JournalEvent::Copying, JournalEvent::ObjectVerified],
        StagePhase::JournalingObjectCommitted | StagePhase::RecheckingSource | StagePhase::RehashingSource
            | StagePhase::FinalCheckingSource => issued == committed_object_events(),
        StagePhase::JournalingDeletePrepared | StagePhase::RemovingSource | StagePhase::ConfirmingSource
            | StagePhase::ConfirmingContent | StagePhase::FinalConfirmingSource =>
            issued == committed_object_events().push(JournalEvent::SourceDeletePrepared),
        StagePhase::JournalingRetained => issued == committed_object_events().push(JournalEvent::SourceRetained)
            || issued == committed_object_events().push(JournalEvent::SourceDeletePrepared).push(JournalEvent::SourceRetained),
        StagePhase::JournalingCommitted => issued == committed_object_events().push(JournalEvent::SourceDeletePrepared).push(JournalEvent::Committed),
        StagePhase::DiscardingObject => issued == seq![JournalEvent::Prepared, JournalEvent::Copying]
            || issued == seq![JournalEvent::Prepared, JournalEvent::Copying, JournalEvent::ObjectVerified],
        StagePhase::Finished => protocol_prefix(issued),
    }
}

/// Whether a staging state is consistent: its journal events are those of
/// its phase, and they follow the quarantine protocol.
pub open spec fn staging_well_formed(s: StagingState) -> bool {
    issued_in(s.phase, s.issued@) && protocol_prefix(s.issued@)
}

/// The refusal for a file name that is not a plain name.
pub open spec fn bad_name(name: Seq<char>) -> bool {
    ||| name.len() == 0
    ||| name == "."@
    ||| name == ".."@
    ||| exists|i: int| 0 <= i < name.len() && (#[trigger] name[i] == '/' || name[i] == '\\')
    ||| (name.len() >= 2 && name[1] == ':')
}

fn is_bad_name(name: &Vec<char>) -> (r: bool)
    ensures
        r == bad_name(name@),
{
    if name.len() == 0 || crate::text::eq_exact(name, ".") || crate::text::eq_exact(name, "..") {
        return true;
    }
    if name.len() >= 2 && name[1] == ':' {
        return true;
    }
    let mut i: usize = 0;
    while i < name.len()
        invariant
            0 <= i <= name@.len(),
            forall|j: int| 0 <= j < i ==> name@[j] != '/' && name@[j] != '\\',
        decreases name@.len() - i,
    {
        if name[i] == '/' || name[i] == '\\' {
            return true;
        }
        i = i + 1;
    }
    false
}

proof fn lemma_protocol_steps()
    ensures
        protocol_prefix(Seq::<JournalEvent>::empty()),
        protocol_prefix(seq![JournalEvent::Prepared]),
        protocol_prefix(seq![JournalEvent::Prepared, JournalEvent::Copying]),
        protocol_prefix(seq![JournalEvent::Prepared, JournalEvent::Copying, JournalEvent::ObjectVerified]),
        protocol_prefix(committed_object_events()),
        protocol_prefix(committed_object_events().push(JournalEvent::SourceRetained)),
        protocol_prefix(committed_object_events().push(JournalEvent::SourceDeletePrepared)),
        protocol_prefix(committed_object_events().push(JournalEvent::SourceDeletePrepared).push(JournalEvent::SourceRetained)),
        protocol_prefix(committed_object_events().push(JournalEvent::SourceDeletePrepared).push(JournalEvent::Committed)),
        Seq::<JournalEvent>::empty().push(JournalEvent::Prepared) == seq![JournalEvent::Prepared],
        seq![JournalEvent::Prepared].push(JournalEvent::Copying) == seq![JournalEvent::Prepared, JournalEvent::Copying],
        seq![JournalEvent::Prepared, JournalEvent::Copying].push(JournalEvent::ObjectVerified)
            == seq![JournalEvent::Prepared, JournalEvent::Copying, JournalEvent::ObjectVerified],
        seq![JournalEvent::Prepared, JournalEvent::Copying, JournalEvent::ObjectVerified].push(JournalEvent::ObjectCommitted)
            == committed_object_events(),
{
    assert(Seq::<JournalEvent>::empty().push(JournalEvent::Prepared) =~= seq![JournalEvent::Prepared]);
    assert(seq![JournalEvent::Prepared].push(JournalEvent::Copying) =~= seq![JournalEvent::Prepared, JournalEvent::Copying]);
    assert(seq![JournalEvent::Prepared, JournalEvent::Copying].push(JournalEvent::ObjectVerified)
        =~= seq![JournalEvent::Prepared, JournalEvent::Copying, JournalEvent::ObjectVerified]);
    assert(seq![JournalEvent::Prepared, JournalEvent::Copying, JournalEvent::ObjectVerified].push(JournalEvent::ObjectCommitted)
        =~= committed_object_events());
    let c = committed_object_events();
    assert forall|j: int| 0 <= j < c.push(JournalEvent::SourceRetained).len() implies #[trigger] allowed_at(c.push(JournalEvent::SourceRetained), j, c.push(JournalEvent::SourceRetained)[j]) by {}
    assert forall|j: int| 0 <= j < c.push(JournalEvent::SourceDeletePrepared).len() implies #[trigger] allowed_at(c.push(JournalEvent::SourceDeletePrepared), j, c.push(JournalEvent::SourceDeletePrepared)[j]) by {}
    let d = c.push(JournalEvent::SourceDeletePrepared);
    assert forall|j: int| 0 <= j < d.push(JournalEvent::SourceRetained).len() implies #[trigger] allowed_at(d.push(JournalEvent::SourceRetained), j, d.push(JournalEvent::SourceRetained)[j]) by {}
    assert forall|j: int| 0 <= j < d.push(JournalEvent::Committed).len() implies #[trigger] allowed_at(d.push(JournalEvent::Committed), j, d.push(JournalEvent::Committed)[j]) by {}
}

/// Starts staging a file of `expected_size` bytes to be kept under
/// `file_name`: a name that is not a plain file name or a file above the
/// quarantine limit is refused; otherwise the record gets a fresh random
/// identifier and the first action is to check the source.
pub fn begin_staging(file_name: &str, expected_size: u64) -> (r: Result<(StagingState, StageAction), String>)
    ensures
        match r {
            Err(message) => (bad_name(file_name@) && message@ == "隔离文件名无效"@)
                || (!bad_name(file_name@) && expected_size > MAX_QUARANTINE_FILE_BYTES
                    && message@ == "单个文件超过实验性隔离上限，已保留源文件"@),
            Ok((state, action)) => !bad_name(file_name@) && expected_size <= MAX_QUARANTINE_FILE_BYTES
                && staging_well_formed(state) && state.phase == StagePhase::CheckingSource
                && (exists|id: u128| state.record_id@ == hyphenated(id)) && state.size_bytes == expected_size
                && action is ValidateSource,
        },
{
    if is_bad_name(&chars_of(file_name)) {
        return Err("隔离文件名无效".to_string());
    }
    if expected_size > MAX_QUARANTINE_FILE_BYTES {
        return Err("单个文件超过实验性隔离上限，已保留源文件".to_string());
    }
    proof {
        lemma_protocol_steps();
    }
    let id = new_random_id();
    let record_id = format_id(id);
    Ok((
        StagingState {
            phase: StagePhase::CheckingSource,
            record_id,
            size_bytes: expected_size,
            source_hash: String::new(),
            delete_error: String::new(),
            pending: String::new(),
            issued: Ghost(Seq::empty()),
        },
        StageAction::ValidateSource,
    ))
}

fn joined(prefix: &str, text: &String) -> (r: String)
    ensures
        r@ == prefix@ + text@,
{
    let mut out = prefix.to_string();
    vstd::string::StringExecFns::append(&mut out, text.as_str());
    out
}

fn texts_equal(a: &String, b: &String) -> (r: bool)
    ensures
        r == (a@ == b@),
{
    crate::apps::vec_eq(&chars_of(a.as_str()), &chars_of(b.as_str()))
}

/// The message of an outcome that failed, or of an unexpected outcome.
fn failure_text(outcome: &StepOutcome) -> (r: String)
    ensures
        outcome matches StepOutcome::Failed(m) ==> r@ == m@,
{
    match outcome {
        StepOutcome::Failed(m) => m.clone(),
        _ => "隔离步骤返回了意外结果".to_string(),
    }
}

/// Whether the action asked for after a step is consistent with the journal:
/// a journal event is asked for exactly when it follows the protocol, the
/// source is deleted only once `SourceDeletePrepared` was asked for, and a
/// result that reports a removed source (neither retained nor needing
/// recovery) comes only after `Committed` was asked for, and one that reports
/// a retained source only after `SourceRetained`.
pub open spec fn step_safe(before: Seq<JournalEvent>, after: Seq<JournalEvent>, action: StageAction) -> bool {
    &&& match action {
        StageAction::AppendJournal(event) => after == before.push(event),
        _ => after == before,
    }
    &&& (action is RemoveSource ==> before.len() > 0 && before.last() == JournalEvent::SourceDeletePrepared)
    &&& (action matches StageAction::Finish(Ok(result)) ==> (
        (!result.source_retained && !result.recovery_required ==> before.len() > 0 && before.last() == JournalEvent::Committed)
        && (result.source_retained ==> before.len() > 0 && before.last() == JournalEvent::SourceRetained)))
}

/// Whether an outcome reports a failure.
pub open spec fn outcome_failed(outcome: StepOutcome) -> bool {
    outcome is Failed
}

/// Whether an outcome is a SHA-256 equal to `expected`.
pub open spec fn hash_matches(outcome: StepOutcome, expected: Seq<char>) -> bool {
    match outcome {
        StepOutcome::Hashed(hash) => hash@ == expected,
        _ => false,
    }
}

/// The phase that staging moves to after the outcome of the action that
/// `phase` waited for: the source is checked, the repository prepared, the
/// object copied, re-read and committed; then the source is checked, re-hashed
/// and checked again before it is removed once. A failed removal is followed
/// by a check, a re-hash and a final check.
pub open spec fn next_phase(phase: StagePhase, outcome: StepOutcome, source_hash: Seq<char>) -> StagePhase {
    let failed = outcome_failed(outcome);
    match phase {
        StagePhase::CheckingSource => if failed { StagePhase::Finished } else { StagePhase::PreparingRepository },
        StagePhase::PreparingRepository => if failed { StagePhase::Finished } else { StagePhase::JournalingPrepared },
        StagePhase::JournalingPrepared => if failed { StagePhase::Finished } else { StagePhase::JournalingCopying },
        StagePhase::JournalingCopying => if failed { StagePhase::Finished } else { StagePhase::CopyingToObject },
        StagePhase::CopyingToObject => if outcome is Hashed { StagePhase::JournalingVerified } else { StagePhase::DiscardingObject },
        StagePhase::JournalingVerified => if failed { StagePhase::DiscardingObject } else { StagePhase::RereadingObject },
        StagePhase::RereadingObject => if hash_matches(outcome, source_hash) { StagePhase::WritingManifest } else { StagePhase::DiscardingObject },
        StagePhase::WritingManifest => if failed { StagePhase::DiscardingObject } else { StagePhase::JournalingObjectCommitted },
        StagePhase::JournalingObjectCommitted => if failed { StagePhase::Finished } else { StagePhase::RecheckingSource },
        StagePhase::RecheckingSource => if failed { StagePhase::JournalingRetained } else { StagePhase::RehashingSource },
        StagePhase::RehashingSource => if hash_matches(outcome, source_hash) { StagePhase::FinalCheckingSource } else { StagePhase::JournalingRetained },
        StagePhase::FinalCheckingSource => if failed { StagePhase::JournalingRetained } else { StagePhase::JournalingDeletePrepared },
        StagePhase::JournalingDeletePrepared => if failed { StagePhase::Finished } else { StagePhase::RemovingSource },
        StagePhase::RemovingSource => if failed { StagePhase::ConfirmingSource } else { StagePhase::JournalingCommitted },
        StagePhase::ConfirmingSource => if failed { StagePhase::Finished } else { StagePhase::ConfirmingContent },
        StagePhase::ConfirmingContent => if hash_matches(outcome, source_hash) { StagePhase::FinalConfirmingSource } else { StagePhase::Finished },
        StagePhase::FinalConfirmingSource => if failed { StagePhase::Finished } else { StagePhase::JournalingRetained },
        _ => StagePhase::Finished,
    }
}

/// The action that staging asks for when it waits in `phase`; a manifest
/// names the source's SHA-256.
pub open spec fn action_of(phase: StagePhase, action: StageAction, source_hash: Seq<char>) -> bool {
    match phase {
        StagePhase::CheckingSource | StagePhase::RecheckingSource | StagePhase::FinalCheckingSource
            | StagePhase::ConfirmingSource | StagePhase::FinalConfirmingSource => action is ValidateSource,
        StagePhase::PreparingRepository => action is PrepareRepository,
        StagePhase::JournalingPrepared => action == StageAction::AppendJournal(JournalEvent::Prepared),
        StagePhase::JournalingCopying => action == StageAction::AppendJournal(JournalEvent::Copying),
        StagePhase::CopyingToObject => action is CopySourceToObject,
        StagePhase::JournalingVerified => action == StageAction::AppendJournal(JournalEvent::ObjectVerified),
        StagePhase::RereadingObject => action is HashObject,
        StagePhase::WritingManifest => action matches StageAction::WriteManifest(hash) && hash@ == source_hash,
        StagePhase::JournalingObjectCommitted => action == StageAction::AppendJournal(JournalEvent::ObjectCommitted),
        StagePhase::RehashingSource | StagePhase::ConfirmingContent => action is HashSource,
        StagePhase::JournalingDeletePrepared => action == StageAction::AppendJournal(JournalEvent::SourceDeletePrepared),
        StagePhase::RemovingSource => action is RemoveSource,
        StagePhase::JournalingRetained => action == StageAction::AppendJournal(JournalEvent::SourceRetained),
        StagePhase::JournalingCommitted => action == StageAction::AppendJournal(JournalEvent::Committed),
        StagePhase::DiscardingObject => action is DiscardObject,
        StagePhase::Finished => action is Finish,
    }
}

/// When staging finishes with a result rather than a refusal: whether the
/// result reports the source retained, and whether it needs recovery. A
/// journaled retention reports a retained source, a journaled commit a
/// removed one, and a failed check after a failed removal needs recovery.
pub open spec fn finish_result(phase: StagePhase, outcome: StepOutcome, source_hash: Seq<char>) -> Option<(bool, bool)> {
    let failed = outcome_failed(outcome);
    match phase {
        StagePhase::JournalingRetained => if failed { None } else { Some((true, false)) },
        StagePhase::JournalingCommitted => if failed { None } else { Some((false, false)) },
        StagePhase::ConfirmingSource | StagePhase::FinalConfirmingSource => if failed { Some((false, true)) } else { None },
        StagePhase::ConfirmingContent => if hash_matches(outcome, source_hash) { None } else { Some((false, true)) },
        _ => None,
    }
}

/// Whether a final action carries the result that staging finishes with.
pub open spec fn finishes_with(action: StageAction, expected: Option<(bool, bool)>, record_id: Seq<char>, size_bytes: u64) -> bool {
    match expected {
        Some((retained, recovery)) => action matches StageAction::Finish(Ok(result))
            && result.source_retained == retained && result.recovery_required == recovery
            && result.record_id@ == record_id && result.size_bytes == size_bytes,
        None => action matches StageAction::Finish(Err(_)),
    }
}

/// The next step of staging after the outcome of the last action. Each
/// refusal names the step that failed; once the object is committed, a
/// failed re-check of the source retains it; a failed deletion is reported
/// as retained only when the source is proven unchanged afterwards, and as
/// needing recovery otherwise.
pub fn stage_step(state: StagingState, outcome: StepOutcome) -> (r: (StagingState, StageAction))
    requires
        staging_well_formed(state),
    ensures
        staging_well_formed(r.0),
        r.0.record_id == state.record_id,
        r.0.size_bytes == state.size_bytes,
        step_safe(state.issued@, r.0.issued@, r.1),
        (r.1 is Finish) <==> r.0.phase == StagePhase::Finished,
        r.0.phase == next_phase(state.phase, outcome, state.source_hash@),
        action_of(r.0.phase, r.1, r.0.source_hash@),
        r.0.phase == StagePhase::Finished ==> finishes_with(r.1, finish_result(state.phase, outcome, state.source_hash@), state.record_id@, state.size_bytes),
        r.0.source_hash@ == (match outcome {
            StepOutcome::Hashed(hash) => if state.phase == StagePhase::CopyingToObject { hash@ } else { state.source_hash@ },
            _ => state.source_hash@,
        }),
        state.phase == StagePhase::RemovingSource && outcome_failed(outcome) ==> (outcome matches StepOutcome::Failed(m) && r.0.delete_error@ == m@),
{
    let StagingState { phase, record_id, size_bytes, source_hash, delete_error, pending, issued } = state;
    proof {
        lemma_protocol_steps();
    }
    let failed = match &outcome {
        StepOutcome::Failed(_) => true,
        _ => false,
    };
    let ghost before = issued@;
    match phase {
        StagePhase::Finished => {
            let message = "隔离已结束".to_string();
            (StagingState { phase: StagePhase::Finished, record_id, size_bytes, source_hash, delete_error, pending, issued }, StageAction::Finish(Err(message)))
        },
        StagePhase::CheckingSource => {
            if failed {
                let message = failure_text(&outcome);
                (StagingState { phase: StagePhase::Finished, record_id, size_bytes, source_hash, delete_error, pending, issued }, StageAction::Finish(Err(message)))
            } else {
                (StagingState { phase: StagePhase::PreparingRepository, record_id, size_bytes, source_hash, delete_error, pending, issued }, StageAction::PrepareRepository)
            }
        },
        StagePhase::PreparingRepository => {
            if failed {
                let message = joined("无法初始化隔离仓库: ", &failure_text(&outcome));
                (StagingState { phase: StagePhase::Finished, record_id, size_bytes, source_hash, delete_error, pending, issued }, StageAction::Finish(Err(message)))
            } else {
                let next = Ghost(before.push(JournalEvent::Prepared));
                (StagingState { phase: StagePhase::JournalingPrepared, record_id, size_bytes, source_hash, delete_error, pending, issued: next }, StageAction::AppendJournal(JournalEvent::Prepared))
            }
        },
        StagePhase::JournalingPrepared => {
            if failed {
                let message = joined("无法准备隔离日志: ", &failure_text(&outcome));
                (StagingState { phase: StagePhase::Finished, record_id, size_bytes, source_hash, delete_error, pending, issued }, StageAction::Finish(Err(message)))
            } else {
                let next = Ghost(before.push(JournalEvent::Copying));
                (StagingState { phase: StagePhase::JournalingCopying, record_id, size_bytes, source_hash, delete_error, pending, issued: next }, StageAction::AppendJournal(JournalEvent::Copying))
            }
        },
        StagePhase::JournalingCopying => {
            if failed {
                let message = joined("无法持久化隔离复制状态: ", &failure_text(&outcome));
                (StagingState { phase: StagePhase::Finished, record_id, size_bytes, source_hash, delete_error, pending, issued }, StageAction::Finish(Err(message)))
            } else {
                (StagingState { phase: StagePhase::CopyingToObject, record_id, size_bytes, source_hash, delete_error, pending, issued }, StageAction::CopySourceToObject)
            }
        },
        StagePhase::CopyingToObject => {
            match outcome {
                StepOutcome::Hashed(hash) => {
                    let next = Ghost(before.push(JournalEvent::ObjectVerified));
                    (StagingState { phase: StagePhase::JournalingVerified, record_id, size_bytes, source_hash: hash, delete_error, pending, issued: next }, StageAction::AppendJournal(JournalEvent::ObjectVerified))
                },
                _ => {
                    let message = failure_text(&outcome);
                    (StagingState { phase: StagePhase::DiscardingObject, record_id, size_bytes, source_hash, delete_error, pending: message, issued }, StageAction::DiscardObject)
                },
            }
        },
        StagePhase::JournalingVerified => {
            if failed {
                let message = joined("无法持久化对象校验状态，源文件已保留: ", &failure_text(&outcome));
                (StagingState { phase: StagePhase::DiscardingObject, record_id, size_bytes, source_hash, delete_error, pending: message, issued }, StageAction::DiscardObject)
            } else {
                (StagingState { phase: StagePhase::RereadingObject, record_id, size_bytes, source_hash, delete_error, pending, issued }, StageAction::HashObject)
            }
        },
        StagePhase::RereadingObject => {
            match outcome {
                StepOutcome::Hashed(hash) => {
                    if texts_equal(&hash, &source_hash) {
                        let manifest_hash = source_hash.clone();
                        (StagingState { phase: StagePhase::WritingManifest, record_id, size_bytes, source_hash, delete_error, pending, issued }, StageAction::WriteManifest(manifest_hash))
                    } else {
                        let message = "隔离对象复读哈希不一致，源文件已保留".to_string();
                        (StagingState { phase: StagePhase::DiscardingObject, record_id, size_bytes, source_hash, delete_error, pending: message, issued }, StageAction::DiscardObject)
                    }
                },
                _ => {
                    let message = failure_text(&outcome);
                    (StagingState { phase: StagePhase::DiscardingObject, record_id, size_bytes, source_hash, delete_error, pending: message, issued }, StageAction::DiscardObject)
                },
            }
        },
        StagePhase::WritingManifest => {
            if failed {
                let message = joined("无法提交隔离清单，源文件已保留: ", &failure_text(&outcome));
                (StagingState { phase: StagePhase::DiscardingObject, record_id, size_bytes, source_hash, delete_error, pending: message, issued }, StageAction::DiscardObject)
            } else {
                let next = Ghost(before.push(JournalEvent::ObjectCommitted));
                (StagingState { phase: StagePhase::JournalingObjectCommitted, record_id, size_bytes, source_hash, delete_error, pending, issued: next }, StageAction::AppendJournal(JournalEvent::ObjectCommitted))
            }
        },
        StagePhase::JournalingObjectCommitted => {
            if failed {
                let message = joined("无法提交隔离日志，源文件已保留: ", &failure_text(&outcome));
                (StagingState { phase: StagePhase::Finished, record_id, size_bytes, source_hash, delete_error, pending, issued }, StageAction::Finish(Err(message)))
            } else {
                (StagingState { phase: StagePhase::RecheckingSource, record_id, size_bytes, source_hash, delete_error, pending, issued }, StageAction::ValidateSource)
            }
        },
        StagePhase::RecheckingSource => {
            if failed {
                let detail = joined("删除前身份复检失败，源文件已保留: ", &failure_text(&outcome));
                let next = Ghost(before.push(JournalEvent::SourceRetained));
                (StagingState { phase: StagePhase::JournalingRetained, record_id, size_bytes, source_hash, delete_error, pending: detail, issued: next }, StageAction::AppendJournal(JournalEvent::SourceRetained))
            } else {
                (StagingState { phase: StagePhase::RehashingSource, record_id, size_bytes, source_hash, delete_error, pending, issued }, StageAction::HashSource)
            }
        },
        StagePhase::RehashingSource => {
            let retained_detail = match &outcome {
                StepOutcome::Hashed(hash) => {
                    if texts_equal(hash, &source_hash) {
                        None
                    } else {
                        Some("删除前内容哈希已变化，源文件已保留".to_string())
                    }
                },
                _ => Some(joined("删除前内容复检失败，源文件已保留: ", &failure_text(&outcome))),
            };
            match retained_detail {
                Some(detail) => {
                    let next = Ghost(before.push(JournalEvent::SourceRetained));
                    (StagingState { phase: StagePhase::JournalingRetained, record_id, size_bytes, source_hash, delete_error, pending: detail, issued: next }, StageAction::AppendJournal(JournalEvent::SourceRetained))
                },
                None => (StagingState { phase: StagePhase::FinalCheckingSource, record_id, size_bytes, source_hash, delete_error, pending, issued }, StageAction::ValidateSource),
            }
        },
        StagePhase::FinalCheckingSource => {
            if failed {
                let detail = joined("删除前最终身份复检失败，源文件已保留: ", &failure_text(&outcome));
                let next = Ghost(before.push(JournalEvent::SourceRetained));
                (StagingState { phase: StagePhase::JournalingRetained, record_id, size_bytes, source_hash, delete_error, pending: detail, issued: next }, StageAction::AppendJournal(JournalEvent::SourceRetained))
            } else {
                let next = Ghost(before.push(JournalEvent::SourceDeletePrepared));
                (StagingState { phase: StagePhase::JournalingDeletePrepared, record_id, size_bytes, source_hash, delete_error, pending, issued: next }, StageAction::AppendJournal(JournalEvent::SourceDeletePrepared))
            }
        },
        StagePhase::JournalingDeletePrepared => {
            if failed {
                let message = joined("无法持久化删除准备状态，源文件已保留: ", &failure_text(&outcome));
                (StagingState { phase: StagePhase::Finished, record_id, size_bytes, source_hash, delete_error, pending, issued }, StageAction::Finish(Err(message)))
            } else {
                (StagingState { phase: StagePhase::RemovingSource, record_id, size_bytes, source_hash, delete_error, pending, issued }, StageAction::RemoveSource)
            }
        },
        StagePhase::RemovingSource => {
            if failed {
                let error = failure_text(&outcome);
                (StagingState { phase: StagePhase::ConfirmingSource, record_id, size_bytes, source_hash, delete_error: error, pending, issued }, StageAction::ValidateSource)
            } else {
                let next = Ghost(before.push(JournalEvent::Committed));
                (StagingState { phase: StagePhase::JournalingCommitted, record_id, size_bytes, source_hash, delete_error, pending, issued: next }, StageAction::AppendJournal(JournalEvent::Committed))
            }
        },
        StagePhase::ConfirmingSource | StagePhase::ConfirmingContent | StagePhase::FinalConfirmingSource => {
            let check_error: Option<String> = match phase {
                StagePhase::ConfirmingSource => if failed {
                    Some(joined("删除失败后无法确认源文件身份: ", &failure_text(&outcome)))
                } else {
                    None
                },
                StagePhase::ConfirmingContent => match &outcome {
                    StepOutcome::Hashed(hash) => if texts_equal(hash, &source_hash) {
                        None
                    } else {
                        Some("删除失败后源文件内容与已提交隔离对象不一致".to_string())
                    },
                    _ => Some(joined("删除失败后无法确认源文件内容: ", &failure_text(&outcome))),
                },
                _ => if failed {
                    Some(joined("删除失败后最终源文件身份复检失败: ", &failure_text(&outcome)))
                } else {
                    None
                },
            };
            match check_error {
                Some(validation_error) => {
                    let mut detail = joined("源文件删除结果无法确认，记录已转入恢复必需状态；未追加 SourceRetained: 删除错误: ", &delete_error);
                    vstd::string::StringExecFns::append(&mut detail, "; 后置复检: ");
                    vstd::string::StringExecFns::append(&mut detail, validation_error.as_str());
                    let result = StageResult {
                        record_id: record_id.clone(),
                        size_bytes,
                        source_retained: false,
                        recovery_required: true,
                        detail: Some(detail),
                    };
                    (StagingState { phase: StagePhase::Finished, record_id, size_bytes, source_hash, delete_error, pending, issued }, StageAction::Finish(Ok(result)))
                },
                None => match phase {
                    StagePhase::ConfirmingSource => (StagingState { phase: StagePhase::ConfirmingContent, record_id, size_bytes, source_hash, delete_error, pending, issued }, StageAction::HashSource),
                    StagePhase::ConfirmingContent => (StagingState { phase: StagePhase::FinalConfirmingSource, record_id, size_bytes, source_hash, delete_error, pending, issued }, StageAction::ValidateSource),
                    _ => {
                        let detail = joined("隔离对象已提交；源文件删除失败，经身份与内容复检确认原文件仍被保留: ", &delete_error);
                        let next = Ghost(before.push(JournalEvent::SourceRetained));
                        (StagingState { phase: StagePhase::JournalingRetained, record_id, size_bytes, source_hash, delete_error, pending: detail, issued: next }, StageAction::AppendJournal(JournalEvent::SourceRetained))
                    },
                },
            }
        },
        StagePhase::JournalingRetained => {
            if failed {
                let message = joined("源文件已保留，但无法持久化隔离终态: ", &failure_text(&outcome));
                (StagingState { phase: StagePhase::Finished, record_id, size_bytes, source_hash, delete_error, pending, issued }, StageAction::Finish(Err(message)))
            } else {
                let result = StageResult {
                    record_id: record_id.clone(),
                    size_bytes,
                    source_retained: true,
                    recovery_required: false,
                    detail: Some(pending.clone()),
                };
                (StagingState { phase: StagePhase::Finished, record_id, size_bytes, source_hash, delete_error, pending, issued }, StageAction::Finish(Ok(result)))
            }
        },
        StagePhase::JournalingCommitted => {
            if failed {
                let message = joined("源文件已移除，但隔离终态持久化失败: ", &failure_text(&outcome));
                (StagingState { phase: StagePhase::Finished, record_id, size_bytes, source_hash, delete_error, pending, issued }, StageAction::Finish(Err(message)))
            } else {
                let result = StageResult {
                    record_id: record_id.clone(),
                    size_bytes,
                    source_retained: false,
                    recovery_required: false,
                    detail: None,
                };
                (StagingState { phase: StagePhase::Finished, record_id, size_bytes, source_hash, delete_error, pending, issued }, StageAction::Finish(Ok(result)))
            }
        },
        StagePhase::DiscardingObject => {
            let message = pending.clone();
            (StagingState { phase: StagePhase::Finished, record_id, size_bytes, source_hash, delete_error, pending, issued }, StageAction::Finish(Err(message)))
        },
    }
}

} // verus!
