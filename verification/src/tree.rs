use vstd::prelude::*;
use crate::text::{chars_of, push_char, string_of, contains_char};
use crate::apps::vec_eq;

verus! {

/// `parent/name`, or `name` alone below the root (an empty parent).
pub open spec fn join_spec(parent: Seq<char>, name: Seq<char>) -> Seq<char> {
    if parent.len() == 0 {
        name
    } else {
        parent.push('/') + name
    }
}

/// Joins a relative directory and a child name with `/`.
pub fn join_path(parent: &str, name: &str) -> (r: String)
    ensures
        r@ == join_spec(parent@, name@),
{
    let p = chars_of(parent);
    let n = chars_of(name);
    let mut out = string_of(&p, 0, p.len());
    assert(p@.subrange(0, p@.len() as int) == p@);
    if p.len() > 0 {
        push_char(&mut out, '/');
    }
    let mut i: usize = 0;
    while i < n.len()
        invariant
            0 <= i <= n@.len(),
            n@ == name@,
            p@ == parent@,
            out@ == (if p@.len() == 0 { seq![] } else { p@.push('/') }) + n@.take(i as int),
        decreases n@.len() - i,
    {
        push_char(&mut out, n[i]);
        assert(n@.take(i + 1) == n@.take(i as int).push(n@[i as int]));
        i = i + 1;
    }
    assert(n@.take(n@.len() as int) == n@);
    assert(seq![] + n@ == n@);
    out
}

/// The prefix that the paths of a directory's children start with.
pub open spec fn child_prefix(parent: Seq<char>) -> Seq<char> {
    if parent.len() == 0 {
        seq![]
    } else {
        parent.push('/')
    }
}

/// The name of `path` when it is a direct child of `parent`.
pub open spec fn child_of(path: Seq<char>, parent: Seq<char>) -> Option<Seq<char>> {
    let prefix = child_prefix(parent);
    if path.len() > prefix.len() && path.take(prefix.len() as int) == prefix && !path.skip(
        prefix.len() as int,
    ).contains('/') {
        Some(path.skip(prefix.len() as int))
    } else {
        None
    }
}

/// The names of the direct children of `parent` among `dirs`, in order.
pub open spec fn children_spec(dirs: Seq<String>, parent: Seq<char>) -> Seq<Seq<char>>
    decreases dirs.len(),
{
    if dirs.len() == 0 {
        seq![]
    } else {
        let rest = children_spec(dirs.drop_last(), parent);
        match child_of(dirs.last()@, parent) {
            Some(name) => rest.push(name),
            None => rest,
        }
    }
}

pub open spec fn views(v: Seq<String>) -> Seq<Seq<char>> {
    v.map_values(|s: String| s@)
}

/// The trusted directories found below one root: plain directories that are
/// neither links nor reparse points, each named by its path relative to the
/// root with `/` between components. The children of a directory appear in the
/// order in which a listing of that directory is to be visited.
#[derive(Clone, Debug)]
pub struct DirectoryTree {
    pub directories: Vec<String>,
}

/// Whether `path` is one of the tree's directories.
pub open spec fn tree_has(tree: DirectoryTree, path: Seq<char>) -> bool {
    exists|i: int| 0 <= i < tree.directories@.len() && tree.directories@[i]@ == path
}

impl DirectoryTree {
    /// A tree that holds no directory.
    pub fn empty() -> (tree: DirectoryTree)
        ensures
            tree.directories@.len() == 0,
    {
        DirectoryTree { directories: Vec::new() }
    }

    /// Whether `path` is a trusted directory of the tree.
    pub fn has_directory(&self, path: &str) -> (r: bool)
        ensures
            r == tree_has(*self, path@),
    {
        let target = chars_of(path);
        let mut i: usize = 0;
        while i < self.directories.len()
            invariant
                0 <= i <= self.directories@.len(),
                target@ == path@,
                forall|k: int| 0 <= k < i ==> self.directories@[k]@ != path@,
            decreases self.directories@.len() - i,
        {
            let candidate = chars_of(self.directories[i].as_str());
            if vec_eq(&candidate, &target) {
                return true;
            }
            i = i + 1;
        }
        false
    }

    /// The names of the direct children of `parent`, in the tree's order.
    pub fn children(&self, parent: &str) -> (r: Vec<String>)
        ensures
            views(r@) == children_spec(self.directories@, parent@),
    {
        let p = chars_of(parent);
        let mut prefix = p.clone();
        if p.len() > 0 {
            prefix.push('/');
        }
        assert(prefix@ == child_prefix(parent@));
        let mut out: Vec<String> = Vec::new();
        let mut i: usize = 0;
        while i < self.directories.len()
            invariant
                0 <= i <= self.directories@.len(),
                prefix@ == child_prefix(parent@),
                views(out@) == children_spec(self.directories@.take(i as int), parent@),
            decreases self.directories@.len() - i,
        {
            let path = chars_of(self.directories[i].as_str());
            let ghost before = self.directories@.take(i as int);
            assert(self.directories@.take(i + 1).drop_last() == before);
            assert(self.directories@.take(i + 1).last() == self.directories@[i as int]);
            let n = path.len();
            let k = prefix.len();
            if n > k {
                let head = slice_chars(&path, 0, k);
                if vec_eq(&head, &prefix) {
                    let rest = slice_chars(&path, k, n);
                    if !contains_char(&rest, '/') {
                        assert(path@.take(k as int) == head@);
                        assert(path@.skip(k as int) == rest@);
                        let name = string_of(&rest, 0, rest.len());
                        assert(rest@.subrange(0, rest@.len() as int) == rest@);
                        out.push(name);
                        assert(views(out@) == views(out@.drop_last()).push(name@));
                    } else {
                        assert(path@.skip(k as int) == rest@);
                    }
                } else {
                    assert(path@.take(k as int) == head@);
                }
            }
            i = i + 1;
        }
        assert(self.directories@.take(self.directories@.len() as int) == self.directories@);
        out
    }
}

/// The characters `s[lo..hi]`.
pub fn slice_chars(s: &Vec<char>, lo: usize, hi: usize) -> (r: Vec<char>)
    requires
        lo <= hi <= s@.len(),
    ensures
        r@ == s@.subrange(lo as int, hi as int),
{
    let mut out: Vec<char> = Vec::new();
    let mut i: usize = lo;
    while i < hi
        invariant
            lo <= i <= hi <= s@.len(),
            out@ == s@.subrange(lo as int, i as int),
        decreases hi - i,
    {
        out.push(s[i]);
        assert(s@.subrange(lo as int, i + 1) == s@.subrange(lo as int, i as int).push(s@[i as int]));
        i = i + 1;
    }
    out
}

} // verus!
