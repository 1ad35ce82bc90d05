//! The user-data directories that are always protected from cleanup: the
//! profile's directories, each listed once.
use vstd::prelude::*;
use crate::exclusions::PathPart;
use crate::installed::{lowercase, unicode_lowercase};
use crate::text::chars_of;

verus! {

/// A path with every `/` written as `\`.
pub open spec fn backslashed(path: Seq<char>) -> Seq<char> {
    path.map_values(|c: char| if c == '/' { '\\' } else { c })
}

/// A text without its trailing `\` characters.
pub open spec fn without_trailing_backslashes(path: Seq<char>) -> Seq<char>
    decreases path.len(),
{
    if path.len() > 0 && path.last() == '\\' {
        without_trailing_backslashes(path.drop_last())
    } else {
        path
    }
}

/// The key two paths are the same directory by: separators written as `\`,
/// trailing separators dropped, and letters lower-cased.
pub open spec fn path_key_spec(path: Seq<char>) -> Seq<char> {
    unicode_lowercase(without_trailing_backslashes(backslashed(path)))
}

/// The key a protected directory is listed once by.
pub fn path_key(path: &str) -> (r: String)
    ensures
        r@ == path_key_spec(path@),
{
    let chars = chars_of(path);
    let mut slashed: Vec<char> = Vec::new();
    let mut i: usize = 0;
    while i < chars.len()
        invariant
            0 <= i <= chars@.len(),
            chars@ == path@,
            slashed@ == backslashed(chars@.take(i as int)),
        decreases chars@.len() - i,
    {
        let c = chars[i];
        slashed.push(if c == '/' { '\\' } else { c });
        assert(backslashed(chars@.take(i + 1)) =~= backslashed(chars@.take(i as int)).push(if c == '/' { '\\' } else { c }));
        i = i + 1;
    }
    assert(chars@.take(chars@.len() as int) =~= chars@);
    let mut end = slashed.len();
    assert(slashed@.take(end as int) =~= slashed@);
    while end > 0 && slashed[end - 1] == '\\'
        invariant
            end <= slashed@.len(),
            without_trailing_backslashes(slashed@) == without_trailing_backslashes(slashed@.take(end as int)),
        decreases end,
    {
        assert(slashed@.take(end as int).drop_last() =~= slashed@.take(end - 1));
        end = end - 1;
    }
    assert(slashed@.take(end as int) =~= slashed@.subrange(0, end as int));
    let trimmed = crate::text::string_of(&slashed, 0, end);
    lowercase(trimmed.as_str())
}

/// A candidate directory: its text, its components and whether the platform
/// calls it absolute.
#[derive(Debug)]
pub struct DirectoryCandidate {
    pub text: String,
    pub parts: Vec<PathPart>,
    pub absolute: bool,
}

/// Whether a candidate may be listed: absolute, and naming more than a root.
pub open spec fn listable(c: DirectoryCandidate) -> bool {
    c.absolute && exists|k: int| 0 <= k < c.parts@.len() && (#[trigger] c.parts@[k]) is Normal
}

/// The candidates listed among the first `n`: each listable one whose key no
/// earlier listed one has.
pub open spec fn unique_listed(candidates: Seq<DirectoryCandidate>, n: int) -> Seq<String>
    decreases n,
{
    if n <= 0 {
        seq![]
    } else {
        let rest = unique_listed(candidates, n - 1);
        let c = candidates[n - 1];
        if listable(c) && !(exists|j: int| 0 <= j < rest.len() && path_key_spec((#[trigger] rest[j])@) == path_key_spec(c.text@)) {
            rest.push(c.text)
        } else {
            rest
        }
    }
}

fn has_named_part(parts: &Vec<PathPart>) -> (r: bool)
    ensures
        r == exists|k: int| 0 <= k < parts@.len() && (#[trigger] parts@[k]) is Normal,
{
    let mut k: usize = 0;
    while k < parts.len()
        invariant
            0 <= k <= parts@.len(),
            forall|j: int| 0 <= j < k ==> !(parts@[j] is Normal),
        decreases parts@.len() - k,
    {
        match &parts[k] {
            PathPart::Normal(_) => return true,
            _ => {},
        }
        k = k + 1;
    }
    false
}

/// Lists the candidate directories that are absolute and name more than a
/// root, each directory once by its key, in the order given.
pub fn unique_absolute_paths(candidates: Vec<DirectoryCandidate>) -> (r: Vec<String>)
    ensures
        r@ == unique_listed(candidates@, candidates@.len() as int),
{
    let ghost all = candidates@;
    let n = candidates.len();
    let mut unique: Vec<String> = Vec::new();
    let mut keys: Vec<String> = Vec::new();
    let mut rest = candidates;
    let mut i: usize = 0;
    while rest.len() > 0
        invariant
            0 <= i <= all.len(),
            all.len() == n,
            rest@ == all.skip(i as int),
            rest@.len() + i == all.len(),
            unique@ == unique_listed(all, i as int),
            keys@.len() == unique@.len(),
            forall|j: int| 0 <= j < keys@.len() ==> (#[trigger] keys@[j])@ == path_key_spec(unique@[j]@),
        decreases rest@.len(),
    {
        let ghost before = rest@;
        let candidate = rest.remove(0);
        proof {
            assert(before[0] == all[i as int]);
            assert(rest@ =~= all.skip(i + 1));
        }
        if candidate.absolute && has_named_part(&candidate.parts) {
            let key = path_key(candidate.text.as_str());
            let key_chars = chars_of(key.as_str());
            let mut seen = false;
            let mut j: usize = 0;
            while j < keys.len()
                invariant
                    0 <= j <= keys@.len(),
                    key_chars@ == key@,
                    seen == exists|q: int| 0 <= q < j && (#[trigger] keys@[q])@ == key@,
                decreases keys@.len() - j,
            {
                if crate::apps::vec_eq(&chars_of(keys[j].as_str()), &key_chars) {
                    seen = true;
                }
                j = j + 1;
            }
            proof {
                let listed = unique_listed(all, i as int);
                if seen {
                    let q = choose|q: int| 0 <= q < keys@.len() && (#[trigger] keys@[q])@ == key@;
                    assert(path_key_spec(listed[q]@) == path_key_spec(candidate.text@));
                } else {
                    assert forall|q: int| 0 <= q < listed.len() implies path_key_spec((#[trigger] listed[q])@) != path_key_spec(candidate.text@) by {
                        assert(keys@[q]@ == path_key_spec(unique@[q]@));
                    }
                }
            }
            if !seen {
                keys.push(key);
                unique.push(candidate.text);
            }
        }
        i = i + 1;
    }
    assert(all.skip(i as int).len() == 0);
    unique
}

} // verus!
