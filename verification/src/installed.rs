use vstd::prelude::*;
use vstd::string::StringSliceAdditionalSpecFns;
use crate::apps::IconSource;
use crate::digest::{sha256, sha256_digest};
use crate::models::AppEntry;
use crate::policy::{CapabilityPolicy, DangerousWriteCapability};
use crate::text::{chars_of, hex_bytes, hex_spec};

verus! {

/// The Unicode lower-case form of a text, as `str::to_lowercase` gives it.
pub uninterp spec fn unicode_lowercase(text: Seq<char>) -> Seq<char>;

/// `str::to_lowercase`: the Unicode lower-case form of a text.
#[verifier::external_body]
pub(crate) fn lowercase(text: &str) -> (r: String)
    ensures
        r@ == unicode_lowercase(text@),
{
    text.to_lowercase()
}

/// Whether `a` sorts before `b`, comparing characters by code point.
pub open spec fn text_lt(a: Seq<char>, b: Seq<char>) -> bool
    decreases a.len(),
{
    if a.len() == 0 {
        b.len() > 0
    } else if b.len() == 0 {
        false
    } else if a[0] != b[0] {
        (a[0] as int) < (b[0] as int)
    } else {
        text_lt(a.drop_first(), b.drop_first())
    }
}

pub proof fn lemma_text_lt_irreflexive(a: Seq<char>)
    ensures
        !text_lt(a, a),
    decreases a.len(),
{
    if a.len() > 0 {
        lemma_text_lt_irreflexive(a.drop_first());
    }
}

pub proof fn lemma_text_lt_transitive(a: Seq<char>, b: Seq<char>, c: Seq<char>)
    requires
        text_lt(a, b),
        text_lt(b, c),
    ensures
        text_lt(a, c),
    decreases a.len(),
{
    if a.len() > 0 && b.len() > 0 && c.len() > 0 {
        if a[0] == b[0] && b[0] == c[0] {
            lemma_text_lt_transitive(a.drop_first(), b.drop_first(), c.drop_first());
        }
    }
}

pub proof fn lemma_text_lt_total(a: Seq<char>, b: Seq<char>)
    ensures
        a == b || text_lt(a, b) || text_lt(b, a),
    decreases a.len(),
{
    if a.len() > 0 && b.len() > 0 && a[0] == b[0] {
        lemma_text_lt_total(a.drop_first(), b.drop_first());
        if a.drop_first() == b.drop_first() {
            assert(a =~= seq![a[0]] + a.drop_first());
            assert(b =~= seq![b[0]] + b.drop_first());
        }
    } else if a.len() == 0 && b.len() == 0 {
        assert(a =~= b);
    } else if a.len() > 0 && b.len() > 0 {
        assert(a[0] != b[0]);
        assert((a[0] as int) != (b[0] as int));
    }
}

pub proof fn lemma_text_lt_asymmetric(a: Seq<char>, b: Seq<char>)
    requires
        text_lt(a, b),
    ensures
        !text_lt(b, a),
{
    if text_lt(b, a) {
        lemma_text_lt_transitive(a, b, a);
        lemma_text_lt_irreflexive(a);
    }
}

/// The order of the application list: by lower-cased name, then by id.
pub open spec fn key_lt(a: (Seq<char>, Seq<char>), b: (Seq<char>, Seq<char>)) -> bool {
    text_lt(a.0, b.0) || (a.0 == b.0 && text_lt(a.1, b.1))
}

/// The order facts of `key_lt`: irreflexive, asymmetric, transitive, total.
pub proof fn lemma_key_facts(a: (Seq<char>, Seq<char>), b: (Seq<char>, Seq<char>), c: (Seq<char>, Seq<char>))
    ensures
        !key_lt(a, a),
        key_lt(a, b) ==> !key_lt(b, a),
        key_lt(a, b) && key_lt(b, c) ==> key_lt(a, c),
        a == b || key_lt(a, b) || key_lt(b, a),
{
    lemma_text_lt_irreflexive(a.0);
    lemma_text_lt_irreflexive(a.1);
    lemma_text_lt_total(a.0, b.0);
    lemma_text_lt_total(a.1, b.1);
    if text_lt(a.0, b.0) {
        lemma_text_lt_asymmetric(a.0, b.0);
    }
    if text_lt(a.1, b.1) {
        lemma_text_lt_asymmetric(a.1, b.1);
    }
    if key_lt(a, b) && key_lt(b, c) {
        if text_lt(a.0, b.0) && text_lt(b.0, c.0) {
            lemma_text_lt_transitive(a.0, b.0, c.0);
        }
        if a.0 == b.0 && b.0 == c.0 && text_lt(a.1, b.1) && text_lt(b.1, c.1) {
            lemma_text_lt_transitive(a.1, b.1, c.1);
        }
    }
    if a.0 == b.0 && a.1 == b.1 {
        assert(a == b);
    }
}

pub fn text_less(a: &Vec<char>, b: &Vec<char>) -> (r: bool)
    ensures
        r == text_lt(a@, b@),
{
    let mut i: usize = 0;
    assert(a@.skip(0) =~= a@);
    assert(b@.skip(0) =~= b@);
    while i < a.len() && i < b.len()
        invariant
            0 <= i <= a@.len(),
            i <= b@.len(),
            text_lt(a@, b@) == text_lt(a@.skip(i as int), b@.skip(i as int)),
        decreases a@.len() - i,
    {
        if a[i] != b[i] {
            return a[i] < b[i];
        }
        assert(a@.skip(i as int).drop_first() =~= a@.skip(i + 1));
        assert(b@.skip(i as int).drop_first() =~= b@.skip(i + 1));
        i = i + 1;
    }
    i == a.len() && i < b.len()
}

/// Compares two keys in the order of `key_lt`.
pub fn key_less(a: &(Vec<char>, Vec<char>), b: &(Vec<char>, Vec<char>)) -> (r: bool)
    ensures
        r == key_lt((a.0@, a.1@), (b.0@, b.1@)),
{
    if text_less(&a.0, &b.0) {
        return true;
    }
    crate::apps::vec_eq(&a.0, &b.0) && text_less(&a.1, &b.1)
}

/// One installed application as the registry describes it.
#[derive(Clone, Debug)]
pub struct InstalledAppRecord {
    pub id: String,
    pub name: String,
    pub publisher: String,
    pub version: String,
    pub size_bytes: u64,
    pub installed_at: String,
    pub uninstall_command: Option<String>,
    pub icon_source: Option<IconSource>,
    /// Whether the uninstall command parses and its executable was accepted
    /// as a program that may be started.
    pub launchable: bool,
}

/// The entry that the user sees for a record.
pub open spec fn entry_of(record: InstalledAppRecord) -> AppEntry {
    AppEntry {
        id: record.id,
        name: record.name,
        publisher: record.publisher,
        version: record.version,
        size_bytes: record.size_bytes,
        installed_at: record.installed_at,
        uninstallable: record.uninstall_command is Some && record.launchable,
    }
}

impl InstalledAppRecord {
    pub fn to_entry(&self) -> (entry: AppEntry)
        ensures
            entry == entry_of(*self),
    {
        AppEntry {
            id: self.id.clone(),
            name: self.name.clone(),
            publisher: self.publisher.clone(),
            version: self.version.clone(),
            size_bytes: self.size_bytes,
            installed_at: self.installed_at.clone(),
            uninstallable: self.uninstall_command.is_some() && self.launchable,
        }
    }
}

/// What is needed to find an application's icon.
#[derive(Clone, Debug)]
pub struct AppIconRequest {
    pub display_icon: Option<IconSource>,
    pub uninstall_command: Option<String>,
}

/// An uninstall that the user asked for, bound to the snapshot's command.
#[derive(Clone, Debug)]
pub struct UninstallRequest {
    pub app_id: String,
    pub command: String,
}

/// A started uninstaller.
#[derive(Clone, Debug)]
pub struct LaunchResult {
    pub app_id: String,
    pub pid: u32,
    pub status: String,
}

/// A point-in-time view of installed applications, one record per id. The
/// user interface only ever receives ids and display data; commands stay here.
#[derive(Debug)]
pub struct InstalledAppSnapshot {
    pub records: Vec<InstalledAppRecord>,
}

/// Whether no two records share an id.
pub open spec fn unique_ids(records: Seq<InstalledAppRecord>) -> bool {
    forall|i: int, j: int| 0 <= i < j < records.len() ==> records[i].id@ != records[j].id@
}

/// Whether `k` is the record with the id `id`, the first one if several.
pub open spec fn is_record_for(records: Seq<InstalledAppRecord>, id: Seq<char>, k: int) -> bool {
    0 <= k < records.len() && records[k].id@ == id && forall|j: int| 0 <= j < k ==> #[trigger] records[j].id@ != id
}

/// Whether some record has the id `id`.
pub open spec fn has_record(records: Seq<InstalledAppRecord>, id: Seq<char>) -> bool {
    exists|k: int| 0 <= k < records.len() && #[trigger] records[k].id@ == id
}

/// The refusal for an id that the latest enumeration did not produce.
pub open spec fn unknown_app_message() -> Seq<char> {
    "应用不属于最近一次枚举快照"@
}

impl Default for InstalledAppSnapshot {
    fn default() -> (snapshot: Self)
        ensures
            snapshot.records@.len() == 0,
    {
        InstalledAppSnapshot { records: Vec::new() }
    }
}

impl InstalledAppSnapshot {
    fn find(&self, id: &str) -> (r: Option<usize>)
        ensures
            match r {
                Some(k) => is_record_for(self.records@, id@, k as int),
                None => !has_record(self.records@, id@),
            },
    {
        let target = chars_of(id);
        let mut k: usize = 0;
        while k < self.records.len()
            invariant
                0 <= k <= self.records@.len(),
                target@ == id@,
                forall|j: int| 0 <= j < k ==> #[trigger] self.records@[j].id@ != id@,
            decreases self.records@.len() - k,
        {
            let candidate = chars_of(self.records[k].id.as_str());
            if crate::apps::vec_eq(&candidate, &target) {
                return Some(k);
            }
            k = k + 1;
        }
        None
    }

    /// Adds a record, replacing any record with the same id.
    pub fn insert(&mut self, record: InstalledAppRecord)
        ensures
            final(self).records@ == without_record(old(self).records@, record.id@).push(record),
    {
        let mut records: Vec<InstalledAppRecord> = Vec::new();
        core::mem::swap(&mut records, &mut self.records);
        let ghost all = records@;
        let target = chars_of(record.id.as_str());
        let mut rest = records;
        let mut kept: Vec<InstalledAppRecord> = Vec::new();
        while rest.len() > 0
            invariant
                target@ == record.id@,
                kept@ + without_record(rest@, record.id@) == without_record(all, record.id@),
            decreases rest@.len(),
        {
            let ghost before = rest@;
            let entry = rest.remove(0);
            assert(rest@ == before.drop_first());
            let entry_id = chars_of(entry.id.as_str());
            if !crate::apps::vec_eq(&entry_id, &target) {
                assert(kept@.push(entry) + without_record(rest@, record.id@) =~= kept@ + (seq![entry]
                    + without_record(rest@, record.id@)));
                kept.push(entry);
            }
        }
        assert(kept@ + Seq::<InstalledAppRecord>::empty() =~= kept@);
        kept.push(record);
        self.records = kept;
    }
}

/// The records whose id is not `id`, in order.
pub open spec fn without_record(records: Seq<InstalledAppRecord>, id: Seq<char>) -> Seq<InstalledAppRecord>
    decreases records.len(),
{
    if records.len() == 0 {
        seq![]
    } else {
        let rest = without_record(records.drop_first(), id);
        if records[0].id@ != id {
            seq![records[0]] + rest
        } else {
            rest
        }
    }
}


/// The position of an entry in the application list.
pub open spec fn entry_key(entry: AppEntry) -> (Seq<char>, Seq<char>) {
    (unicode_lowercase(entry.name@), entry.id@)
}

/// Whether the entries are in list order.
pub open spec fn sorted_entries(entries: Seq<AppEntry>) -> bool {
    forall|i: int, j: int| 0 <= i < j < entries.len() ==> !key_lt(entry_key(#[trigger] entries[j]), entry_key(#[trigger] entries[i]))
}

pub open spec fn entries_of(records: Seq<InstalledAppRecord>) -> Seq<AppEntry> {
    records.map_values(|r: InstalledAppRecord| entry_of(r))
}

pub open spec fn key_views(keys: Seq<(Vec<char>, Vec<char>)>, j: int) -> (Seq<char>, Seq<char>) {
    (keys[j].0@, keys[j].1@)
}

impl InstalledAppSnapshot {
    /// The entries of the snapshot, ordered by lower-cased name and then id.
    pub fn entries(&self) -> (r: Vec<AppEntry>)
        ensures
            r@.to_multiset() == entries_of(self.records@).to_multiset(),
            sorted_entries(r@),
    {
        let mut out: Vec<AppEntry> = Vec::new();
        let mut keys: Vec<(Vec<char>, Vec<char>)> = Vec::new();
        let mut i: usize = 0;
        assert(entries_of(self.records@).take(0) =~= out@);
        while i < self.records.len()
            invariant
                0 <= i <= self.records@.len(),
                keys@.len() == out@.len(),
                forall|j: int| 0 <= j < out@.len() ==> key_views(keys@, j) == entry_key(#[trigger] out@[j]),
                sorted_entries(out@),
                out@.to_multiset() == entries_of(self.records@).take(i as int).to_multiset(),
            decreases self.records@.len() - i,
        {
            let entry = self.records[i].to_entry();
            let lowered = lowercase(entry.name.as_str());
            let key = (chars_of(lowered.as_str()), chars_of(entry.id.as_str()));
            let mut p: usize = 0;
            while p < keys.len() && !key_less(&key, &keys[p])
                invariant
                    0 <= p <= keys@.len(),
                    keys@.len() == out@.len(),
                    forall|j: int| 0 <= j < p ==> !key_lt((key.0@, key.1@), key_views(keys@, j)),
                decreases keys@.len() - p,
            {
                p = p + 1;
            }
            let ghost before = out@;
            let ghost before_keys = keys@;
            let ghost k = (key.0@, key.1@);
            assert(k == entry_key(entry));
            proof {
                assert forall|a: int, b: int| 0 <= a < b < before.len() + 1 implies !key_lt(
                    entry_key(#[trigger] before.insert(p as int, entry)[b]),
                    entry_key(#[trigger] before.insert(p as int, entry)[a]),
                ) by {
                    let s = before.insert(p as int, entry);
                    if a < p && b < p {
                        assert(s[a] == before[a] && s[b] == before[b]);
                    } else if a > p && b > p {
                        assert(s[a] == before[a - 1] && s[b] == before[b - 1]);
                    } else if a < p && b == p {
                        assert(s[a] == before[a]);
                        assert(!key_lt(k, entry_key(before[a])));
                    } else if a < p && b > p {
                        assert(s[a] == before[a] && s[b] == before[b - 1]);
                    } else {
                        assert(a == p && b > p);
                        assert(s[b] == before[b - 1]);
                        let kp = entry_key(before[p as int]);
                        let kb = entry_key(before[b - 1]);
                        assert(key_lt(k, kp));
                        lemma_key_facts(k, kp, kb);
                        lemma_key_facts(kp, kb, k);
                        lemma_key_facts(k, kb, kp);
                        lemma_key_facts(kb, kp, k);
                        if b - 1 > p {
                            assert(!key_lt(kb, kp));
                        }
                    }
                }
            }
            out.insert(p, entry);
            keys.insert(p, key);
            proof {
                assert(out@ == before.insert(p as int, entry));
                vstd::seq_lib::to_multiset_insert(before, p as int, entry);
                vstd::seq_lib::to_multiset_build(entries_of(self.records@).take(i as int), entry);
                assert forall|j: int| 0 <= j < out@.len() implies key_views(keys@, j) == entry_key(#[trigger] out@[j]) by {
                    if j < p {
                        assert(keys@[j] == before_keys[j] && out@[j] == before[j]);
                    } else if j > p {
                        assert(keys@[j] == before_keys[j - 1] && out@[j] == before[j - 1]);
                    }
                }
                assert(entries_of(self.records@).take(i + 1) =~= entries_of(self.records@).take(i as int).push(entry));
            }
            i = i + 1;
        }
        assert(entries_of(self.records@).take(self.records@.len() as int) =~= entries_of(self.records@));
        out
    }

    /// How many applications the snapshot holds.
    pub fn len(&self) -> (r: usize)
        ensures
            r == self.records@.len(),
    {
        self.records.len()
    }

    /// Whether the snapshot holds no application.
    pub fn is_empty(&self) -> (r: bool)
        ensures
            r == (self.records@.len() == 0),
    {
        self.records.len() == 0
    }

    /// What is needed to find the icon of the application with the id `id`.
    pub fn icon_request(&self, id: &str) -> (r: Result<AppIconRequest, String>)
        ensures
            !has_record(self.records@, id@) ==> (r matches Err(message) && message@ == unknown_app_message()),
            forall|k: int| #[trigger] is_record_for(self.records@, id@, k) ==> (r matches Ok(request)
                && request.display_icon == self.records@[k].icon_source
                && request.uninstall_command == self.records@[k].uninstall_command),
    {
        match self.find(id) {
            None => Err("应用不属于最近一次枚举快照".to_string()),
            Some(k) => {
                proof {
                    lemma_record_for_unique(self.records@, id@, k as int);
                }
                Ok(AppIconRequest {
                    display_icon: copy_icon_source(&self.records[k].icon_source),
                    uninstall_command: crate::models::copy_optional_text(&self.records[k].uninstall_command),
                })
            },
        }
    }

    /// The uninstall of the application with the id `id`, bound to the
    /// snapshot's own command: refused for an unknown id and for an
    /// application without a usable visible uninstaller.
    pub fn uninstall_request(&self, id: &str) -> (r: Result<UninstallRequest, String>)
        ensures
            !has_record(self.records@, id@) ==> (r matches Err(message) && message@ == unknown_app_message()),
            forall|k: int| #[trigger] is_record_for(self.records@, id@, k) ==> match self.records@[k].uninstall_command {
                Some(command) => r matches Ok(request) && request.app_id@ == id@ && request.command == command,
                None => r matches Err(message) && message@ == "此应用未注册可用的官方卸载器"@,
            },
    {
        match self.find(id) {
            None => Err("应用不属于最近一次枚举快照".to_string()),
            Some(k) => {
                proof {
                    lemma_record_for_unique(self.records@, id@, k as int);
                }
                match &self.records[k].uninstall_command {
                    Some(command) => Ok(UninstallRequest { app_id: id.to_string(), command: command.clone() }),
                    None => Err("此应用未注册可用的官方卸载器".to_string()),
                }
            },
        }
    }
}

fn copy_icon_source(source: &Option<IconSource>) -> (r: Option<IconSource>)
    ensures
        r == *source,
{
    match source {
        Some(icon) => Some(IconSource { path: icon.path.clone(), index: icon.index }),
        None => None,
    }
}

proof fn lemma_record_for_unique(records: Seq<InstalledAppRecord>, id: Seq<char>, k: int)
    requires
        is_record_for(records, id, k),
    ensures
        forall|k2: int| #[trigger] is_record_for(records, id, k2) ==> k2 == k,
{
    assert forall|k2: int| #[trigger] is_record_for(records, id, k2) implies k2 == k by {
        if k2 < k {
            assert(records[k2].id@ != id);
        } else if k2 > k {
            assert(records[k].id@ != id);
        }
    }
}

/// Allows an uninstaller to be started only where the policy grants legacy
/// Win32 uninstall launches; returns the request to hand to the launcher.
pub fn launch_prepared_uninstaller_with_policy(request: UninstallRequest, policy: CapabilityPolicy) -> (r: Result<UninstallRequest, String>)
    ensures
        r is Ok <==> policy.build_channel != crate::policy::BuildChannel::ProductionRelease,
        r matches Ok(approved) ==> approved.app_id == request.app_id && approved.command == request.command,
        r matches Err(message) ==> message@ == crate::policy::denial_message(DangerousWriteCapability::LegacyWin32UninstallLaunch),
{
    match policy.require(DangerousWriteCapability::LegacyWin32UninstallLaunch) {
        Ok(()) => Ok(request),
        Err(message) => Err(message),
    }
}


fn append_bytes(out: &mut Vec<u8>, bytes: &[u8])
    ensures
        final(out)@ == old(out)@ + bytes@,
{
    let mut i: usize = 0;
    let ghost start = out@;
    while i < bytes.len()
        invariant
            0 <= i <= bytes@.len(),
            out@ == start + bytes@.take(i as int),
        decreases bytes@.len() - i,
    {
        out.push(bytes[i]);
        assert(bytes@.take(i + 1) == bytes@.take(i as int).push(bytes@[i as int]));
        i = i + 1;
    }
    assert(bytes@.take(bytes@.len() as int) == bytes@);
}

/// The bytes that an application id is the digest of: a domain tag, the
/// hive, the registry view and the lower-cased key name, separated by zero
/// bytes.
pub open spec fn app_id_input(hive: Seq<char>, view: Seq<char>, registry_key: Seq<char>) -> Seq<u8> {
    vstd::utf8::encode_utf8("qingpan-installed-app-v1"@) + seq![0u8] + vstd::utf8::encode_utf8(hive)
        + seq![0u8] + vstd::utf8::encode_utf8(view) + seq![0u8] + vstd::utf8::encode_utf8(
        unicode_lowercase(registry_key),
    )
}

/// An opaque application id that is the same for every spelling of a
/// registry key's case, and differs between hives and registry views:
/// `app_` and the hexadecimal SHA-256 of the id input.
pub fn stable_app_id(hive: &str, view: &str, registry_key: &str) -> (id: String)
    ensures
        id@ == "app_"@ + hex_spec(sha256_digest(app_id_input(hive@, view@, registry_key@))),
{
    let mut data: Vec<u8> = Vec::new();
    append_bytes(&mut data, "qingpan-installed-app-v1".as_bytes());
    data.push(0u8);
    append_bytes(&mut data, hive.as_bytes());
    data.push(0u8);
    append_bytes(&mut data, view.as_bytes());
    data.push(0u8);
    let lowered = lowercase(registry_key);
    append_bytes(&mut data, lowered.as_str().as_bytes());
    assert(data@ =~= app_id_input(hive@, view@, registry_key@));
    let digest = sha256(data.as_slice());
    let mut id = "app_".to_string();
    let hex = hex_bytes(digest.as_slice());
    vstd::string::StringExecFns::append(&mut id, hex.as_str());
    id
}


} // verus!

verus! {

/// The size value of an uninstall key as the registry holds it.
#[derive(Clone, Debug)]
pub enum EstimatedSize {
    Dword(u32),
    Qword(u64),
    Text(String),
    Missing,
}

/// The values of one uninstall registry key, as read (`None` where a value is
/// missing or is not of the expected type).
#[derive(Clone, Debug)]
pub struct RegistryValues {
    pub system_component: Option<u32>,
    pub parent_key_name: Option<String>,
    pub release_type: Option<String>,
    pub display_name: Option<String>,
    pub uninstall_string: Option<String>,
    pub no_remove: Option<u32>,
    pub display_icon: Option<String>,
    pub publisher: Option<String>,
    pub display_version: Option<String>,
    pub install_date: Option<String>,
    pub estimated_size: EstimatedSize,
}

/// A registry text value trimmed, when it is present and not blank.
pub open spec fn non_empty(value: Option<String>) -> Option<Seq<char>> {
    match value {
        Some(text) => if crate::text::trim(text@).len() > 0 {
            Some(crate::text::trim(text@))
        } else {
            None
        },
        None => None,
    }
}

/// Whether a release type marks a Windows update.
pub open spec fn is_update_release(release: Seq<char>) -> bool {
    let lowered = crate::text::lower(release);
    lowered == "hotfix"@ || lowered == "security update"@ || lowered == "update rollup"@
}

/// The value of a run of decimal digits.
pub open spec fn decimal_value(digits: Seq<char>) -> int
    decreases digits.len(),
{
    if digits.len() == 0 {
        0
    } else {
        decimal_value(digits.drop_last()) * 10 + (digits.last() as int - '0' as int)
    }
}

/// A text without its leading `+`, if it has one.
pub open spec fn unsigned_digits(text: Seq<char>) -> Seq<char> {
    if text.len() > 0 && text[0] == '+' {
        text.skip(1)
    } else {
        text
    }
}

/// Whether a text is made of decimal digits only.
pub open spec fn all_digits(digits: Seq<char>) -> bool {
    forall|i: int| 0 <= i < digits.len() ==> '0' <= #[trigger] digits[i] <= '9'
}

/// What `str::parse::<u64>` reads from a text: an optional `+` and at least
/// one decimal digit, with a value that fits.
pub open spec fn parsed_u64(text: Seq<char>) -> Option<u64> {
    if unsigned_digits(text).len() > 0 && all_digits(unsigned_digits(text))
        && decimal_value(unsigned_digits(text)) <= u64::MAX {
        Some(decimal_value(unsigned_digits(text)) as u64)
    } else {
        None
    }
}

/// The estimated size in kibibytes: a number, or a trimmed decimal text; 0
/// when missing or unreadable.
pub open spec fn size_kib(size: EstimatedSize) -> u64 {
    match size {
        EstimatedSize::Dword(v) => v as u64,
        EstimatedSize::Qword(v) => v,
        EstimatedSize::Text(text) => match parsed_u64(crate::text::trim(text@)) {
            Some(v) => v,
            None => 0,
        },
        EstimatedSize::Missing => 0,
    }
}

proof fn lemma_decimal_step(digits: Seq<char>, c: char)
    requires
        '0' <= c <= '9',
    ensures
        decimal_value(digits.push(c)) == decimal_value(digits) * 10 + (c as int - '0' as int),
{
    assert(digits.push(c).drop_last() =~= digits);
}

proof fn lemma_decimal_nonneg(digits: Seq<char>)
    requires
        forall|i: int| 0 <= i < digits.len() ==> '0' <= #[trigger] digits[i] <= '9',
    ensures
        decimal_value(digits) >= 0,
    decreases digits.len(),
{
    if digits.len() > 0 {
        lemma_decimal_nonneg(digits.drop_last());
    }
}

fn parse_u64(text: &Vec<char>, lo: usize, hi: usize) -> (r: Option<u64>)
    requires
        lo <= hi <= text@.len(),
    ensures
        r == parsed_u64(text@.subrange(lo as int, hi as int)),
{
    let ghost t = text@.subrange(lo as int, hi as int);
    let start = if lo < hi && text[lo] == '+' { lo + 1 } else { lo };
    let ghost digits = text@.subrange(start as int, hi as int);
    assert(digits =~= unsigned_digits(t));
    if start == hi {
        return None;
    }
    let mut value: u64 = 0;
    let mut i: usize = start;
    let mut overflow = false;
    while i < hi
        invariant
            start <= i <= hi <= text@.len(),
            digits == text@.subrange(start as int, hi as int),
            t == text@.subrange(lo as int, hi as int),
            digits == unsigned_digits(t),
            forall|j: int| start <= j < i ==> '0' <= #[trigger] text@[j] <= '9',
            !overflow ==> value == decimal_value(text@.subrange(start as int, i as int)),
            overflow ==> decimal_value(text@.subrange(start as int, i as int)) > u64::MAX,
        decreases hi - i,
    {
        let c = text[i];
        if !('0' <= c && c <= '9') {
            assert(digits[i - start] == c);
            assert(!all_digits(digits));
            return None;
        }
        proof {
            assert(text@.subrange(start as int, i + 1) =~= text@.subrange(start as int, i as int).push(c));
            lemma_decimal_step(text@.subrange(start as int, i as int), c);
            lemma_decimal_nonneg(text@.subrange(start as int, i as int));
        }
        let d = ((c as u32) - ('0' as u32)) as u64;
        if !overflow {
            match value.checked_mul(10) {
                Some(m) => match m.checked_add(d) {
                    Some(v) => value = v,
                    None => overflow = true,
                },
                None => overflow = true,
            }
        } else {
            assert(decimal_value(text@.subrange(start as int, i as int)) * 10 >= decimal_value(text@.subrange(start as int, i as int))) by (nonlinear_arith)
                requires decimal_value(text@.subrange(start as int, i as int)) >= 0;
        }
        i = i + 1;
    }
    assert(text@.subrange(start as int, hi as int) == digits);
    if overflow {
        None
    } else {
        Some(value)
    }
}

fn non_empty_text(value: &Option<String>) -> (r: Option<String>)
    ensures
        match r {
            Some(text) => non_empty(*value) == Some(text@),
            None => non_empty(*value) is None,
        },
{
    match value {
        None => None,
        Some(text) => {
            let chars = chars_of(text.as_str());
            let (lo, hi) = crate::text::trim_bounds(&chars);
            if lo == hi {
                None
            } else {
                Some(crate::text::string_of(&chars, lo, hi))
            }
        },
    }
}

fn estimated_size_kib(size: &EstimatedSize) -> (r: u64)
    ensures
        r == size_kib(*size),
{
    match size {
        EstimatedSize::Dword(v) => *v as u64,
        EstimatedSize::Qword(v) => *v,
        EstimatedSize::Text(text) => {
            let chars = chars_of(text.as_str());
            let (lo, hi) = crate::text::trim_bounds(&chars);
            match parse_u64(&chars, lo, hi) {
                Some(v) => v,
                None => 0,
            }
        },
        EstimatedSize::Missing => 0,
    }
}

/// Whether an uninstall key is left out: a system component, a child of
/// another entry, a Windows update, or an entry without a display name.
pub open spec fn hidden_entry(values: RegistryValues) -> bool {
    ||| values.system_component == Some(1u32)
    ||| non_empty(values.parent_key_name) is Some
    ||| (non_empty(values.release_type) matches Some(release) && is_update_release(release))
    ||| non_empty(values.display_name) is None
}

/// Whether `record` is the record that an uninstall key yields.
pub open spec fn record_of_key(hive: Seq<char>, view: Seq<char>, key_name: Seq<char>, values: RegistryValues, executable_accepted: bool, env: crate::apps::Environment, record: InstalledAppRecord) -> bool {
    &&& record.id@ == "app_"@ + hex_spec(sha256_digest(app_id_input(hive, view, key_name)))
    &&& Some(record.name@) == non_empty(values.display_name)
    &&& record.publisher@ == (match non_empty(values.publisher) { Some(t) => t, None => seq![] })
    &&& record.version@ == (match non_empty(values.display_version) { Some(t) => t, None => seq![] })
    &&& record.installed_at@ == (match non_empty(values.install_date) { Some(t) => t, None => seq![] })
    &&& record.size_bytes == (if size_kib(values.estimated_size) * 1024 > u64::MAX { u64::MAX as int } else { size_kib(values.estimated_size) * 1024 })
    &&& match record.uninstall_command {
        Some(command) => values.no_remove != Some(1u32) && non_empty(values.uninstall_string) == Some(command@),
        None => values.no_remove == Some(1u32) || non_empty(values.uninstall_string) is None,
    }
    &&& match record.icon_source {
        Some(icon) => non_empty(values.display_icon) matches Some(raw) && crate::apps::display_icon_spec(raw, env) == Some((icon.path@, icon.index)),
        None => non_empty(values.display_icon) matches Some(raw) ==> crate::apps::display_icon_spec(raw, env) is None,
    }
    &&& record.launchable == (record.uninstall_command matches Some(command)
        && crate::apps::uninstall_words(command@) is Ok && executable_accepted)
}

/// The record that an uninstall registry key yields, unless the key is left
/// out: a system component, a child of another entry (one with a non-blank
/// ParentKeyName), a Windows update or a key without a display name yields
/// none, and every other key yields a record. The record's uninstall command counts as launchable when it parses
/// and `executable_accepted` says that the environment accepted its
/// executable as a program that may be started.
pub fn record_from_registry(
    hive: &str,
    view: &str,
    key_name: &str,
    values: &RegistryValues,
    executable_accepted: bool,
    env: &crate::apps::Environment,
) -> (r: Option<InstalledAppRecord>)
    ensures
        match r {
            None => hidden_entry(*values),
            Some(record) => !hidden_entry(*values) && record_of_key(hive@, view@, key_name@, *values, executable_accepted, *env, record),
        },
        values.system_component == Some(1u32) ==> r is None,
        non_empty(values.parent_key_name) is Some ==> r is None,
        (non_empty(values.release_type) matches Some(release) && is_update_release(release)) ==> r is None,
        non_empty(values.display_name) is None ==> r is None,
        values.system_component != Some(1u32) && non_empty(values.parent_key_name) is None
            && !(non_empty(values.release_type) matches Some(release) && is_update_release(release))
            && non_empty(values.display_name) is Some ==> r is Some,
{
    if values.system_component == Some(1u32) {
        return None;
    }
    if non_empty_text(&values.parent_key_name).is_some() {
        return None;
    }
    match non_empty_text(&values.release_type) {
        Some(release) => {
            let lowered = crate::text::lower_vec(&chars_of(release.as_str()));
            if crate::text::eq_exact(&lowered, "hotfix") || crate::text::eq_exact(&lowered, "security update")
                || crate::text::eq_exact(&lowered, "update rollup") {
                return None;
            }
        },
        None => {},
    }
    let name = match non_empty_text(&values.display_name) {
        Some(name) => name,
        None => return None,
    };
    let id = stable_app_id(hive, view, key_name);
    let uninstall_command = crate::apps::select_visible_uninstaller(
        non_empty_text(&values.uninstall_string),
        values.no_remove == Some(1u32),
    );
    let icon_source = match non_empty_text(&values.display_icon) {
        Some(raw) => crate::apps::parse_display_icon(raw.as_str(), env),
        None => None,
    };
    let launchable = match &uninstall_command {
        Some(command) => match crate::apps::parse_uninstall_command(command.as_str(), env) {
            Ok(_) => executable_accepted,
            Err(_) => false,
        },
        None => false,
    };
    let kib = estimated_size_kib(&values.estimated_size);
    let size_bytes = match kib.checked_mul(1024) {
        Some(v) => v,
        None => u64::MAX,
    };
    let empty = String::new();
    Some(InstalledAppRecord {
        id,
        name,
        publisher: match non_empty_text(&values.publisher) { Some(t) => t, None => String::new() },
        version: match non_empty_text(&values.display_version) { Some(t) => t, None => String::new() },
        size_bytes,
        installed_at: match non_empty_text(&values.install_date) { Some(t) => t, None => empty },
        uninstall_command,
        icon_source,
        launchable,
    })
}


/// One uninstall registry key: the hive and registry view it was read from,
/// its name, its values, and whether the environment accepted the executable
/// of its uninstall command as a program that may be started.
#[derive(Clone, Debug)]
pub struct RegistryKey {
    pub hive: String,
    pub view: String,
    pub key_name: String,
    pub values: RegistryValues,
    pub executable_accepted: bool,
}

/// Whether `yielded` is what a key yields: nothing for a key that is left
/// out, its record otherwise.
pub open spec fn yield_of_key(key: RegistryKey, env: crate::apps::Environment, yielded: Option<InstalledAppRecord>) -> bool {
    match yielded {
        None => hidden_entry(key.values),
        Some(record) => !hidden_entry(key.values) && record_of_key(key.hive@, key.view@, key.key_name@, key.values, key.executable_accepted, env, record),
    }
}

/// The records after inserting the yielded ones in order, each replacing a
/// record with the same id.
pub open spec fn inserted_records(yielded: Seq<Option<InstalledAppRecord>>) -> Seq<InstalledAppRecord>
    decreases yielded.len(),
{
    if yielded.len() == 0 {
        seq![]
    } else {
        let prev = inserted_records(yielded.drop_last());
        match yielded.last() {
            Some(record) => without_record(prev, record.id@).push(record),
            None => prev,
        }
    }
}

/// The installed applications that the uninstall keys describe, keys read in
/// order and a later key replacing an earlier one with the same id.
pub fn enumerate(keys: Vec<RegistryKey>, env: &crate::apps::Environment) -> (snapshot: InstalledAppSnapshot)
    ensures
        exists|yielded: Seq<Option<InstalledAppRecord>>|
            #![trigger inserted_records(yielded)]
            yielded.len() == keys@.len() && (forall|k: int| 0 <= k < keys@.len() ==> yield_of_key(#[trigger] keys@[k], *env, yielded[k]))
                && snapshot.records@ == inserted_records(yielded),
{
    let mut snapshot = InstalledAppSnapshot { records: Vec::new() };
    let ghost mut yielded: Seq<Option<InstalledAppRecord>> = seq![];
    let mut i: usize = 0;
    while i < keys.len()
        invariant
            0 <= i <= keys@.len(),
            yielded.len() == i,
            forall|k: int| 0 <= k < i ==> yield_of_key(#[trigger] keys@[k], *env, yielded[k]),
            snapshot.records@ == inserted_records(yielded),
        decreases keys@.len() - i,
    {
        let key = &keys[i];
        let record = record_from_registry(key.hive.as_str(), key.view.as_str(), key.key_name.as_str(), &key.values, key.executable_accepted, env);
        let ghost next = yielded.push(record);
        proof {
            assert(next.drop_last() =~= yielded);
        }
        match record {
            Some(r) => snapshot.insert(r),
            None => {},
        }
        proof {
            assert forall|k: int| 0 <= k < i + 1 implies yield_of_key(#[trigger] keys@[k], *env, next[k]) by {
                if k < i {
                    assert(next[k] == yielded[k]);
                }
            }
            yielded = next;
        }
        i = i + 1;
    }
    snapshot
}

} // verus!
