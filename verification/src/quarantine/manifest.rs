//! The manifest that commits a quarantine record: what it must hold to be
//! trusted, and the names of a record's files.
use vstd::prelude::*;
use crate::cleanup_plan::ids::{format_id, hyphenated, parse_id_text, parsed_uuid};
use crate::exclusions::utf16_len;
use crate::quarantine::types::{ErrorKind, QuarantineError, QUARANTINE_SCHEMA_VERSION};
use crate::text::{chars_of, eq_ignore_case, eq_ignore_case_str};

verus! {

/// The protocol that a manifest of this repository names.
pub const QUARANTINE_PROTOCOL: &'static str = "quarantine-preview-v1";

/// The longest file name a record may carry, in UTF-16 code units.
pub const MAX_EXPORT_FILE_NAME_UNITS: usize = 255;

/// What a quarantine record's manifest holds.
#[derive(Debug)]
pub struct QuarantineManifest {
    pub schema_version: u32,
    pub protocol: String,
    pub record_id: u128,
    pub file_name: String,
    pub rule_id: String,
    pub plan_id: String,
    pub created_at_ms: u64,
    pub size_bytes: u64,
    pub sha256: String,
    pub object_name: String,
}

/// The name of a record's object file.
pub open spec fn object_name_spec(record_id: u128) -> Seq<char> {
    hyphenated(record_id) + ".blob"@
}

/// The name of a record's object file.
pub fn object_name(record_id: u128) -> (r: String)
    ensures
        r@ == object_name_spec(record_id),
{
    let mut name = format_id(record_id);
    vstd::string::StringExecFns::append(&mut name, ".blob");
    name
}

/// Whether a text is a SHA-256 digest written in lower-case hexadecimal.
pub open spec fn is_lower_sha256(value: Seq<char>) -> bool {
    value.len() == 64 && forall|k: int| 0 <= k < 64 ==> ('0' <= #[trigger] value[k] <= '9' || 'a' <= value[k] <= 'f')
}

fn lower_sha256(value: &String) -> (r: bool)
    ensures
        r == is_lower_sha256(value@),
{
    let chars = chars_of(value.as_str());
    if chars.len() != 64 {
        return false;
    }
    let mut k: usize = 0;
    while k < 64
        invariant
            0 <= k <= 64,
            chars@ == value@,
            chars@.len() == 64,
            forall|j: int| 0 <= j < k ==> ('0' <= #[trigger] chars@[j] <= '9' || 'a' <= chars@[j] <= 'f'),
        decreases 64 - k,
    {
        let c = chars[k];
        if !(('0' <= c && c <= '9') || ('a' <= c && c <= 'f')) {
            return false;
        }
        k = k + 1;
    }
    true
}

/// A control character, as `char::is_control` names them.
pub open spec fn is_control(c: char) -> bool {
    (c as u32) <= 0x1f || (0x7f <= (c as u32) && (c as u32) <= 0x9f)
}

/// A character that a Windows file name cannot hold.
pub open spec fn is_forbidden(c: char) -> bool {
    c == '/' || c == '\\' || c == ':' || c == '*' || c == '?' || c == '"' || c == '<' || c == '>' || c == '|'
}

/// The part of a name before its first `.`.
pub open spec fn base_name(name: Seq<char>) -> Seq<char> {
    if exists|k: int| 0 <= k < name.len() && name[k] == '.' {
        name.take(choose|k: int| 0 <= k < name.len() && name[k] == '.' && forall|j: int| 0 <= j < k ==> name[j] != '.')
    } else {
        name
    }
}

/// A device name that Windows reserves, whatever the extension.
pub open spec fn is_reserved_device(base: Seq<char>) -> bool {
    ||| eq_ignore_case(base, "CON"@)
    ||| eq_ignore_case(base, "PRN"@)
    ||| eq_ignore_case(base, "AUX"@)
    ||| eq_ignore_case(base, "NUL"@)
    ||| (base.len() == 4 && (eq_ignore_case(base.take(3), "COM"@) || eq_ignore_case(base.take(3), "LPT"@))
        && '1' <= base[3] <= '9')
}

/// Whether a record's file name can be written as a single plain file name
/// on Windows: not empty, at most 255 UTF-16 units, not `.` or `..`, not
/// ending in a space or a dot, without control or forbidden characters, and
/// not a reserved device name. (Without separators or a drive colon, such a
/// name is one plain path component.)
pub open spec fn is_safe_export_file_name(value: Seq<char>) -> bool {
    &&& value.len() > 0
    &&& utf16_len(value) <= MAX_EXPORT_FILE_NAME_UNITS
    &&& value != "."@
    &&& value != ".."@
    &&& value.last() != ' '
    &&& value.last() != '.'
    &&& forall|k: int| 0 <= k < value.len() ==> !is_control(#[trigger] value[k]) && !is_forbidden(value[k])
    &&& !is_reserved_device(base_name(value))
}

proof fn lemma_base_name(name: Seq<char>, k: int)
    requires
        0 <= k <= name.len(),
        forall|j: int| 0 <= j < k ==> name[j] != '.',
        k == name.len() || name[k] == '.',
    ensures
        base_name(name) == name.take(k),
{
    if exists|i: int| 0 <= i < name.len() && name[i] == '.' {
        let c = choose|i: int| 0 <= i < name.len() && name[i] == '.' && forall|j: int| 0 <= j < i ==> name[j] != '.';
        assert(exists|i: int| 0 <= i < name.len() && name[i] == '.' && forall|j: int| 0 <= j < i ==> name[j] != '.') by {
            assert(k < name.len());
            assert(0 <= k < name.len() && name[k] == '.' && forall|j: int| 0 <= j < k ==> name[j] != '.');
        }
        if c < k {
            assert(name[c] != '.');
        } else if c > k {
            assert(name[k] != '.');
        }
    } else {
        assert(name.take(k) =~= name);
    }
}

fn utf16_within(chars: &Vec<char>, limit: usize) -> (r: bool)
    ensures
        r == (utf16_len(chars@) <= limit),
{
    !crate::exclusions::utf16_longer_than(chars, limit)
}

/// Whether a record's file name is safe to export under.
pub fn safe_export_file_name(value: &String) -> (r: bool)
    ensures
        r == is_safe_export_file_name(value@),
{
    let chars = chars_of(value.as_str());
    if chars.len() == 0 || !utf16_within(&chars, MAX_EXPORT_FILE_NAME_UNITS) {
        return false;
    }
    if crate::text::eq_exact(&chars, ".") || crate::text::eq_exact(&chars, "..") {
        return false;
    }
    let last = chars[chars.len() - 1];
    if last == ' ' || last == '.' {
        return false;
    }
    let mut k: usize = 0;
    let mut dot: usize = chars.len();
    while k < chars.len()
        invariant
            0 <= k <= chars@.len(),
            chars@ == value@,
            dot <= chars@.len(),
            forall|j: int| 0 <= j < k ==> !is_control(#[trigger] chars@[j]) && !is_forbidden(chars@[j]),
            dot < k ==> chars@[dot as int] == '.',
            dot == chars@.len() || dot < k,
            forall|j: int| 0 <= j < k && j < dot ==> chars@[j] != '.',
        decreases chars@.len() - k,
    {
        let c = chars[k];
        let code = c as u32;
        if code <= 0x1f || (0x7f <= code && code <= 0x9f) || c == '/' || c == '\\' || c == ':' || c == '*' || c == '?'
            || c == '"' || c == '<' || c == '>' || c == '|' {
            assert(is_control(chars@[k as int]) || is_forbidden(chars@[k as int]));
            return false;
        }
        if c == '.' && dot == chars.len() {
            dot = k;
        }
        k = k + 1;
    }
    proof {
        lemma_base_name(chars@, dot as int);
    }
    let base = crate::tree::slice_chars(&chars, 0, dot);
    assert(base@ =~= chars@.take(dot as int));
    if eq_ignore_case_str(&base, "CON") || eq_ignore_case_str(&base, "PRN") || eq_ignore_case_str(&base, "AUX")
        || eq_ignore_case_str(&base, "NUL") {
        return false;
    }
    if base.len() == 4 {
        let head = crate::tree::slice_chars(&base, 0, 3);
        assert(head@ =~= base@.take(3));
        let digit = base[3];
        if (eq_ignore_case_str(&head, "COM") || eq_ignore_case_str(&head, "LPT")) && '1' <= digit && digit <= '9' {
            return false;
        }
    }
    true
}

/// Why a manifest cannot be trusted for the record `expected_id`, if it
/// cannot.
pub open spec fn manifest_refusal(manifest: QuarantineManifest, expected_id: u128) -> Option<Seq<char>> {
    if manifest.schema_version != QUARANTINE_SCHEMA_VERSION {
        Some("unsupported quarantine manifest schema"@)
    } else if manifest.protocol@ != QUARANTINE_PROTOCOL@ {
        Some("unsupported quarantine manifest protocol"@)
    } else if manifest.record_id != expected_id {
        Some("quarantine manifest record ID mismatch"@)
    } else if manifest.object_name@ != object_name_spec(expected_id) {
        Some("quarantine manifest object name is not canonical"@)
    } else if !is_safe_export_file_name(manifest.file_name@) {
        Some("quarantine manifest file name is unsafe"@)
    } else if manifest.rule_id@.len() == 0 || manifest.plan_id@.len() == 0 {
        Some("quarantine manifest origin is incomplete"@)
    } else if !is_lower_sha256(manifest.sha256@) {
        Some("quarantine manifest SHA-256 is not canonical"@)
    } else {
        None
    }
}

fn invalid(message: &str) -> (e: QuarantineError)
    ensures
        e.kind == ErrorKind::InvalidData,
        e.message@ == message@,
{
    QuarantineError { kind: ErrorKind::InvalidData, message: message.to_string() }
}

fn same_text(a: &String, b: &String) -> (r: bool)
    ensures
        r == (a@ == b@),
{
    crate::apps::vec_eq(&chars_of(a.as_str()), &chars_of(b.as_str()))
}

/// Checks that a manifest belongs to the record `expected_id` and holds
/// only canonical, safe values; the first fault is reported as invalid data.
pub fn validate_manifest(manifest: &QuarantineManifest, expected_id: u128) -> (r: Result<(), QuarantineError>)
    ensures
        match manifest_refusal(*manifest, expected_id) {
            None => r is Ok,
            Some(message) => r matches Err(e) && e.kind == ErrorKind::InvalidData && e.message@ == message,
        },
{
    if manifest.schema_version != QUARANTINE_SCHEMA_VERSION {
        return Err(invalid("unsupported quarantine manifest schema"));
    }
    if !same_text(&manifest.protocol, &QUARANTINE_PROTOCOL.to_string()) {
        return Err(invalid("unsupported quarantine manifest protocol"));
    }
    if manifest.record_id != expected_id {
        return Err(invalid("quarantine manifest record ID mismatch"));
    }
    if !same_text(&manifest.object_name, &object_name(expected_id)) {
        return Err(invalid("quarantine manifest object name is not canonical"));
    }
    if !safe_export_file_name(&manifest.file_name) {
        return Err(invalid("quarantine manifest file name is unsafe"));
    }
    if manifest.rule_id.as_str().unicode_len() == 0 || manifest.plan_id.as_str().unicode_len() == 0 {
        return Err(invalid("quarantine manifest origin is incomplete"));
    }
    if !lower_sha256(&manifest.sha256) {
        return Err(invalid("quarantine manifest SHA-256 is not canonical"));
    }
    Ok(())
}

/// The largest manifest file that is read or written, in bytes.
pub const MAX_MANIFEST_BYTES: u64 = 65536;

/// The name of a record's manifest file.
pub open spec fn manifest_name_spec(record_id: u128) -> Seq<char> {
    hyphenated(record_id) + ".json"@
}

/// The name of a record's manifest file.
pub fn manifest_name(record_id: u128) -> (r: String)
    ensures
        r@ == manifest_name_spec(record_id),
{
    let mut name = format_id(record_id);
    vstd::string::StringExecFns::append(&mut name, ".json");
    name
}

/// The name of a record's journal file.
pub fn journal_name(record_id: u128) -> (r: String)
    ensures
        r@ == hyphenated(record_id) + ".jsonl"@,
{
    let mut name = format_id(record_id);
    vstd::string::StringExecFns::append(&mut name, ".jsonl");
    name
}

/// The record that a file of the manifest directory belongs to: its name
/// must be a record identifier, as `Uuid::parse_str` reads it, followed by
/// `.json`, and be that record's canonical manifest name.
pub open spec fn manifest_file_record(name: Seq<char>) -> Option<u128> {
    if name.len() < 5 || name.skip(name.len() - 5) != ".json"@ {
        None
    } else {
        match parsed_uuid(name.take(name.len() - 5)) {
            Some(id) => if name == manifest_name_spec(id) {
                Some(id)
            } else {
                None
            },
            None => None,
        }
    }
}

/// Reads which record a manifest file belongs to from its name.
pub fn manifest_record_id(name: &String) -> (r: Option<u128>)
    ensures
        r == manifest_file_record(name@),
{
    let chars = chars_of(name.as_str());
    proof {
        reveal_strlit(".json");
    }
    if chars.len() < 5 {
        return None;
    }
    let tail = crate::tree::slice_chars(&chars, chars.len() - 5, chars.len());
    assert(tail@ =~= chars@.skip(chars@.len() - 5));
    if !crate::text::eq_exact(&tail, ".json") {
        return None;
    }
    let stem = crate::text::string_of(&chars, 0, chars.len() - 5);
    assert(stem@ =~= chars@.take(chars@.len() - 5));
    match parse_id_text(stem.as_str()) {
        None => None,
        Some(id) => {
            if same_text(name, &manifest_name(id)) {
                Some(id)
            } else {
                None
            }
        },
    }
}

/// The fields a manifest holds, no more and no fewer.
pub open spec fn manifest_fields() -> Seq<Seq<char>> {
    seq!["schemaVersion"@, "protocol"@, "recordId"@, "fileName"@, "ruleId"@, "planId"@, "createdAtMs"@, "sizeBytes"@,
        "sha256"@, "objectName"@]
}

/// Whether the (distinct) keys of a manifest object are exactly its fields.
pub open spec fn fields_closed(keys: Seq<Seq<char>>) -> bool {
    keys.len() == manifest_fields().len()
        && forall|k: int| 0 <= k < keys.len() ==> manifest_fields().contains(#[trigger] keys[k])
}

fn known_field(key: &String) -> (r: bool)
    ensures
        r == manifest_fields().contains(key@),
{
    let chars = chars_of(key.as_str());
    let known = crate::text::eq_exact(&chars, "schemaVersion") || crate::text::eq_exact(&chars, "protocol")
        || crate::text::eq_exact(&chars, "recordId") || crate::text::eq_exact(&chars, "fileName")
        || crate::text::eq_exact(&chars, "ruleId") || crate::text::eq_exact(&chars, "planId")
        || crate::text::eq_exact(&chars, "createdAtMs") || crate::text::eq_exact(&chars, "sizeBytes")
        || crate::text::eq_exact(&chars, "sha256") || crate::text::eq_exact(&chars, "objectName");
    proof {
        let f = manifest_fields();
        if known {
            if key@ == "schemaVersion"@ { assert(f[0] == key@); }
            if key@ == "protocol"@ { assert(f[1] == key@); }
            if key@ == "recordId"@ { assert(f[2] == key@); }
            if key@ == "fileName"@ { assert(f[3] == key@); }
            if key@ == "ruleId"@ { assert(f[4] == key@); }
            if key@ == "planId"@ { assert(f[5] == key@); }
            if key@ == "createdAtMs"@ { assert(f[6] == key@); }
            if key@ == "sizeBytes"@ { assert(f[7] == key@); }
            if key@ == "sha256"@ { assert(f[8] == key@); }
            if key@ == "objectName"@ { assert(f[9] == key@); }
        } else if f.contains(key@) {
            let k = choose|k: int| 0 <= k < f.len() && f[k] == key@;
            assert(0 <= k < 10);
        }
    }
    known
}

/// Whether the keys of a manifest object (distinct, as JSON object keys
/// are) are exactly the manifest's fields.
pub fn manifest_fields_closed(keys: &Vec<String>) -> (r: bool)
    ensures
        r == fields_closed(keys@.map_values(|k: String| k@)),
{
    let ghost views = keys@.map_values(|k: String| k@);
    if keys.len() != 10 {
        return false;
    }
    let mut i: usize = 0;
    while i < keys.len()
        invariant
            0 <= i <= keys@.len(),
            keys@.len() == 10,
            views == keys@.map_values(|k: String| k@),
            forall|j: int| 0 <= j < i ==> manifest_fields().contains(#[trigger] views[j]),
        decreases keys@.len() - i,
    {
        if !known_field(&keys[i]) {
            assert(!manifest_fields().contains(views[i as int]));
            return false;
        }
        i = i + 1;
    }
    true
}

} // verus!
