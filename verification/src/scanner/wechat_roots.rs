//! Where the WeChat clients keep their data: the classic client's documents
//! root, read from its configuration, and the 4.x client's data root, read
//! from its per-install configuration files.
use vstd::prelude::*;
use crate::apps::{starts_with, utf8_len, utf8_longer_than};
use crate::exclusions::PathPart;
use crate::installed::{lemma_text_lt_asymmetric, lemma_text_lt_total, text_less, text_lt};
use crate::scanner::rules::starts_with_exec;
use crate::text::{chars_of, eq_ignore_case, eq_ignore_case_str, string_of, trim, trim_bounds};

verus! {

/// Where the classic client keeps its configuration, below the roaming
/// application-data directory.
pub const WECHAT_CONFIG_RELATIVE: &'static str = "Tencent/WeChat/All Users/config/3ebffe94.ini";

/// Where the 4.x client keeps its configuration files, below the roaming
/// application-data directory.
pub const XWECHAT_CONFIG_RELATIVE: &'static str = "Tencent/xwechat/config";

/// The directory below a 4.x-client data root that holds its accounts.
pub const XWECHAT_DATA_DIRECTORY: &'static str = "xwechat_files";

/// The largest classic-client configuration file that is read.
pub const WECHAT_CONFIG_MAX_BYTES: usize = 65536;

/// The largest 4.x-client configuration file that is read.
pub const XWECHAT_CONFIG_MAX_BYTES: u64 = 4096;

/// The longest configured path, in UTF-8 bytes.
pub const MAX_CONFIGURED_PATH_BYTES: u64 = 32767;

/// The position of the first line break at or after `i`, or the end.
pub open spec fn next_newline(s: Seq<char>, i: int) -> int
    decreases s.len() - i,
{
    if i < 0 || i >= s.len() {
        s.len() as int
    } else if s[i] == '\n' {
        i
    } else {
        next_newline(s, i + 1)
    }
}

pub proof fn lemma_next_newline(s: Seq<char>, i: int)
    requires
        0 <= i <= s.len(),
    ensures
        i <= next_newline(s, i) <= s.len(),
        next_newline(s, i) < s.len() ==> s[next_newline(s, i)] == '\n',
        forall|j: int| i <= j < next_newline(s, i) ==> s[j] != '\n',
    decreases s.len() - i,
{
    if i < s.len() && s[i] != '\n' {
        lemma_next_newline(s, i + 1);
    }
}

/// A text without its leading byte-order marks.
pub open spec fn without_boms(s: Seq<char>) -> Seq<char>
    decreases s.len(),
{
    if s.len() > 0 && s[0] == '\u{feff}' {
        without_boms(s.drop_first())
    } else {
        s
    }
}

/// The value of the first line, from the `i`-th character on, that starts
/// (after byte-order marks) with `MyDocument:`, trimmed.
pub open spec fn document_setting_from(s: Seq<char>, i: int) -> Option<Seq<char>>
    decreases s.len() - i,
{
    if i < 0 || i > s.len() {
        None
    } else {
        let end = next_newline(s, i);
        let line = without_boms(s.subrange(i, end));
        if starts_with(line, "MyDocument:"@) {
            Some(trim(line.skip(11)))
        } else if end < s.len() {
            proof {
                lemma_next_newline(s, i);
            }
            document_setting_from(s, end + 1)
        } else {
            None
        }
    }
}

/// The documents root that the classic client's configuration names, if it
/// names a usable one: the file is small enough, the setting is present and
/// not empty, and not too long.
pub open spec fn document_setting(content: Seq<char>, byte_len: usize) -> Option<Seq<char>> {
    if byte_len > WECHAT_CONFIG_MAX_BYTES {
        None
    } else {
        match document_setting_from(content, 0) {
            Some(value) => if value.len() == 0 || utf8_len(value) > MAX_CONFIGURED_PATH_BYTES {
                None
            } else {
                Some(value)
            },
            None => None,
        }
    }
}

fn strip_boms(s: &Vec<char>, lo: usize, hi: usize) -> (r: usize)
    requires
        lo <= hi <= s@.len(),
    ensures
        lo <= r <= hi,
        without_boms(s@.subrange(lo as int, hi as int)) == s@.subrange(r as int, hi as int),
    decreases hi - lo,
{
    if lo < hi && s[lo] == '\u{feff}' {
        assert(s@.subrange(lo as int, hi as int).drop_first() =~= s@.subrange(lo + 1, hi as int));
        strip_boms(s, lo + 1, hi)
    } else {
        lo
    }
}

/// Reads the classic client's documents-root setting from its configuration
/// text (`byte_len`: the size of the file read).
pub fn wechat_document_setting(content: &str, byte_len: usize) -> (r: Option<String>)
    ensures
        match document_setting(content@, byte_len) {
            Some(value) => r matches Some(v) && v@ == value,
            None => r is None,
        },
{
    if byte_len > WECHAT_CONFIG_MAX_BYTES {
        return None;
    }
    let s = chars_of(content);
    proof {
        reveal_strlit("MyDocument:");
    }
    let mut i: usize = 0;
    let mut value: Option<String> = None;
    let mut done = false;
    while !done
        invariant
            0 <= i <= s@.len(),
            s@ == content@,
            !done ==> document_setting_from(s@, 0) == document_setting_from(s@, i as int),
            !done ==> value is None,
            done ==> document_setting_from(s@, 0) == match value {
                Some(v) => Some(v@),
                None => None::<Seq<char>>,
            },
        decreases s@.len() - i, (if done { 0int } else { 1int }),
    {
        let mut end = i;
        while end < s.len() && s[end] != '\n'
            invariant
                i <= end <= s@.len(),
                next_newline(s@, i as int) == next_newline(s@, end as int),
            decreases s@.len() - end,
        {
            end = end + 1;
        }
        proof {
            lemma_next_newline(s@, i as int);
            assert(next_newline(s@, end as int) == end);
            reveal_strlit("MyDocument:");
            assert("MyDocument:"@.len() == 11);
        }
        let start = strip_boms(&s, i, end);
        let line = string_of(&s, start, end);
        let line_chars = chars_of(line.as_str());
        assert(line_chars@ == without_boms(s@.subrange(i as int, next_newline(s@, i as int))));
        if starts_with_exec(&line_chars, "MyDocument:") {
            let body = string_of(&line_chars, 11, line_chars.len());
            let body_chars = chars_of(body.as_str());
            let (blo, bhi) = trim_bounds(&body_chars);
            assert(line_chars@.skip(11) =~= body_chars@);
            let found = string_of(&body_chars, blo, bhi);
            assert(found@ == trim(line_chars@.skip(11)));
            assert(document_setting_from(s@, i as int) == Some(trim(line_chars@.skip(11))));
            value = Some(found);
            done = true;
        } else if end >= s.len() {
            assert(document_setting_from(s@, i as int) is None);
            done = true;
        } else {
            i = end + 1;
        }
    }
    match value {
        None => None,
        Some(v) => {
            let chars = chars_of(v.as_str());
            if chars.len() == 0 || utf8_longer_than(&chars, MAX_CONFIGURED_PATH_BYTES) {
                None
            } else {
                Some(v)
            }
        },
    }
}

/// Whether a path's last component names the directory `name`, letters
/// compared without case.
pub open spec fn ends_in_directory(parts: Seq<PathPart>, name: Seq<char>) -> bool {
    parts.len() > 0 && (parts.last() matches PathPart::Normal(n) && eq_ignore_case(n@, name))
}

/// The data root that a configured path names: none for a path that is not
/// absolute; the parent of a path that names the data directory itself;
/// otherwise the path.
pub open spec fn configured_root(parts: Seq<PathPart>, absolute: bool, directory: Seq<char>) -> Option<Seq<PathPart>> {
    if !absolute {
        None
    } else if ends_in_directory(parts, directory) {
        Some(parts.drop_last())
    } else {
        Some(parts)
    }
}

fn choose_root(parts: Vec<PathPart>, absolute: bool, directory: &str) -> (r: Option<Vec<PathPart>>)
    ensures
        match configured_root(parts@, absolute, directory@) {
            None => r is None,
            Some(root) => r matches Some(out) && out@ == root,
        },
{
    if !absolute {
        return None;
    }
    let named = parts.len() > 0 && match &parts[parts.len() - 1] {
        PathPart::Normal(name) => eq_ignore_case_str(&chars_of(name.as_str()), directory),
        _ => false,
    };
    let mut out = parts;
    if named {
        out.pop();
    }
    Some(out)
}

/// The documents root that the classic client's configured path names (the
/// caller falls back to the default documents directory on `None`).
pub fn wechat_documents_root(parts: Vec<PathPart>, absolute: bool) -> (r: Option<Vec<PathPart>>)
    ensures
        match configured_root(parts@, absolute, "WeChat Files"@) {
            None => r is None,
            Some(root) => r matches Some(out) && out@ == root,
        },
{
    choose_root(parts, absolute, "WeChat Files")
}

/// The data root that a 4.x-client configured path names (a candidate only:
/// the caller keeps it if its `xwechat_files` directory is trusted).
pub fn xwechat_data_root(parts: Vec<PathPart>, absolute: bool) -> (r: Option<Vec<PathPart>>)
    ensures
        match configured_root(parts@, absolute, "xwechat_files"@) {
            None => r is None,
            Some(root) => r matches Some(out) && out@ == root,
        },
{
    choose_root(parts, absolute, "xwechat_files")
}

/// The data root that a 4.x-client configuration file holds: its text
/// trimmed and without leading byte-order marks, if that is not empty, not
/// too long, and free of NUL.
pub open spec fn xwechat_setting_spec(content: Seq<char>) -> Option<Seq<char>> {
    let value = without_boms(trim(content));
    if value.len() == 0 || utf8_len(value) > MAX_CONFIGURED_PATH_BYTES || value.contains('\0') {
        None
    } else {
        Some(value)
    }
}

/// Reads a 4.x-client configuration file's data-root setting.
pub fn xwechat_setting(content: &str) -> (r: Option<String>)
    ensures
        match xwechat_setting_spec(content@) {
            Some(value) => r matches Some(v) && v@ == value,
            None => r is None,
        },
{
    let chars = chars_of(content);
    let (lo, hi) = trim_bounds(&chars);
    let start = strip_boms(&chars, lo, hi);
    assert(chars@.subrange(lo as int, hi as int) == trim(content@));
    let value = string_of(&chars, start, hi);
    let value_chars = chars_of(value.as_str());
    if value_chars.len() == 0 || utf8_longer_than(&value_chars, MAX_CONFIGURED_PATH_BYTES)
        || crate::text::contains_char(&value_chars, '\0') {
        return None;
    }
    Some(value)
}

/// An entry of the 4.x client's configuration directory, as its metadata
/// (not followed through links) shows it.
#[derive(Debug)]
pub struct ConfigEntry {
    pub name: String,
    pub is_file: bool,
    pub is_link_or_reparse: bool,
    pub size: u64,
}

/// Whether a character is an ASCII hexadecimal digit.
pub open spec fn is_hex(c: char) -> bool {
    ('0' <= c <= '9') || ('a' <= c <= 'f') || ('A' <= c <= 'F')
}

/// Whether a file name is a 4.x-client configuration name: 32 hexadecimal
/// digits and the extension `ini`, in any case.
pub open spec fn config_name(name: Seq<char>) -> bool {
    &&& name.len() == 36
    &&& forall|k: int| 0 <= k < 32 ==> is_hex(#[trigger] name[k])
    &&& name[32] == '.'
    &&& eq_ignore_case(name.skip(33), "ini"@)
}

/// Whether an entry is a configuration file that is read: a plain small
/// file with a configuration name.
pub open spec fn config_candidate(entry: ConfigEntry) -> bool {
    entry.is_file && !entry.is_link_or_reparse && entry.size <= XWECHAT_CONFIG_MAX_BYTES && config_name(entry.name@)
}

/// The names of the configuration files among the first `n` entries.
pub open spec fn config_names(entries: Seq<ConfigEntry>, n: int) -> Seq<String>
    decreases n,
{
    if n <= 0 {
        seq![]
    } else if config_candidate(entries[n - 1]) {
        config_names(entries, n - 1).push(entries[n - 1].name)
    } else {
        config_names(entries, n - 1)
    }
}

fn is_config_name(name: &String) -> (r: bool)
    ensures
        r == config_name(name@),
{
    let chars = chars_of(name.as_str());
    if chars.len() != 36 {
        return false;
    }
    let mut k: usize = 0;
    while k < 32
        invariant
            0 <= k <= 32,
            chars@.len() == 36,
            chars@ == name@,
            forall|j: int| 0 <= j < k ==> is_hex(#[trigger] chars@[j]),
        decreases 32 - k,
    {
        let c = chars[k];
        if !(('0' <= c && c <= '9') || ('a' <= c && c <= 'f') || ('A' <= c && c <= 'F')) {
            assert(!is_hex(chars@[k as int]));
            return false;
        }
        k = k + 1;
    }
    if chars[32] != '.' {
        return false;
    }
    let extension = crate::tree::slice_chars(&chars, 33, 36);
    assert(extension@ =~= chars@.skip(33));
    eq_ignore_case_str(&extension, "ini")
}

/// Sorts names by code point.
fn sort_names(names: Vec<String>) -> (r: Vec<String>)
    ensures
        r@.to_multiset() == names@.to_multiset(),
        forall|i: int, j: int| 0 <= i < j < r@.len() ==> !text_lt((#[trigger] r@[j])@, (#[trigger] r@[i])@),
{
    let mut out: Vec<String> = Vec::new();
    let ghost all = names@;
    let mut rest = names;
    let ghost mut taken: Seq<String> = seq![];
    assert(all =~= taken + rest@);
    while rest.len() > 0
        invariant
            all == taken + rest@,
            out@.to_multiset() == taken.to_multiset(),
            forall|i: int, j: int| 0 <= i < j < out@.len() ==> !text_lt((#[trigger] out@[j])@, (#[trigger] out@[i])@),
        decreases rest@.len(),
    {
        let ghost before_rest = rest@;
        let entry = rest.remove(0);
        let entry_chars = chars_of(entry.as_str());
        let mut p: usize = 0;
        while p < out.len() && !text_less(&entry_chars, &chars_of(out[p].as_str()))
            invariant
                0 <= p <= out@.len(),
                entry_chars@ == entry@,
                forall|j: int| 0 <= j < p ==> !text_lt(entry@, (#[trigger] out@[j])@),
            decreases out@.len() - p,
        {
            p = p + 1;
        }
        let ghost before = out@;
        proof {
            assert forall|a: int, b: int| 0 <= a < b < before.len() + 1 implies !text_lt(
                (#[trigger] before.insert(p as int, entry)[b])@,
                (#[trigger] before.insert(p as int, entry)[a])@,
            ) by {
                let s = before.insert(p as int, entry);
                if b < p {
                    assert(s[a] == before[a] && s[b] == before[b]);
                } else if a > p {
                    assert(s[a] == before[a - 1] && s[b] == before[b - 1]);
                } else if b == p {
                    assert(s[a] == before[a]);
                } else if a < p {
                    assert(s[a] == before[a] && s[b] == before[b - 1]);
                } else {
                    // a == p < b: the entry sorts before before[p] <= before[b - 1].
                    assert(s[b] == before[b - 1]);
                    let x = before[p as int]@;
                    let y = before[b - 1]@;
                    assert(text_lt(entry@, x));
                    lemma_text_lt_total(x, y);
                    if x != y {
                        if b - 1 > p {
                            assert(!text_lt(y, x));
                        }
                        crate::installed::lemma_text_lt_transitive(entry@, x, y);
                    }
                    lemma_text_lt_asymmetric(entry@, y);
                }
            }
        }
        out.insert(p, entry);
        proof {
            vstd::seq_lib::to_multiset_insert(before, p as int, entry);
            vstd::seq_lib::to_multiset_build(taken, entry);
            assert(before_rest[0] == entry);
            assert(all =~= taken.push(entry) + rest@);
            taken = taken.push(entry);
        }
    }
    assert(taken =~= all);
    out
}

/// The 4.x client's configuration files among a directory's entries, in the
/// order they are tried: by name, code point by code point.
pub fn xwechat_config_names(entries: Vec<ConfigEntry>) -> (r: Vec<String>)
    ensures
        r@.to_multiset() == config_names(entries@, entries@.len() as int).to_multiset(),
        forall|i: int, j: int| 0 <= i < j < r@.len() ==> !text_lt((#[trigger] r@[j])@, (#[trigger] r@[i])@),
{
    let ghost all = entries@;
    let n = entries.len();
    let mut names: Vec<String> = Vec::new();
    let mut rest = entries;
    let mut k: usize = 0;
    while rest.len() > 0
        invariant
            0 <= k <= all.len(),
            rest@ == all.skip(k as int),
            rest@.len() + k == all.len(),
            all.len() == n,
            names@ == config_names(all, k as int),
        decreases rest@.len(),
    {
        let ghost before = rest@;
        let entry = rest.remove(0);
        proof {
            assert(before[0] == all[k as int]);
            assert(rest@ =~= all.skip(k + 1));
        }
        if entry.is_file && !entry.is_link_or_reparse && entry.size <= XWECHAT_CONFIG_MAX_BYTES && is_config_name(&entry.name) {
            names.push(entry.name);
        }
        k = k + 1;
    }
    assert(all.skip(k as int).len() == 0);
    sort_names(names)
}

} // verus!
