//! Installed applications: uninstall-command parsing, icon sources and the
//! snapshot that binds UI identifiers to registry data.
use vstd::prelude::*;
use crate::text::{chars_of, push_char, lower, lower_char, lower_char_exec, lower_vec, eq_ignore_case, eq_ignore_case_exec, eq_ignore_case_str, string_of, trim, trim_start, trim_bounds, skip_ws_forward, contains_char};

verus! {

/// Space and tab separate arguments on a Windows command line.
pub open spec fn is_command_ws(c: char) -> bool {
    c == ' ' || c == '\t'
}

pub fn is_command_whitespace(c: char) -> (r: bool)
    ensures
        r == is_command_ws(c),
{
    c == ' ' || c == '\t'
}

/// `n` backslashes.
pub open spec fn backslashes(n: nat) -> Seq<char> {
    Seq::new(n, |_i: int| '\\')
}

/// Number of consecutive backslashes in `c` starting at `i`.
pub open spec fn run_of_backslashes(c: Seq<char>, i: int) -> nat
    decreases c.len() - i,
{
    if 0 <= i < c.len() && c[i] == '\\' {
        1 + run_of_backslashes(c, i + 1)
    } else {
        0
    }
}

/// Reads one argument of a Windows command line under the CRT quoting rules,
/// from position `i`, with `arg` read so far and `quoted` telling whether a
/// quote is open. Gives the argument, the position after it and whether a
/// quote is still open there.
///
/// Backslashes are literal unless they precede a quote: then each pair gives
/// one backslash, and an odd one escapes the quote. Inside quotes a doubled
/// quote gives one quote. An unquoted space or tab ends the argument.
pub open spec fn read_argument(c: Seq<char>, i: int, quoted: bool, arg: Seq<char>) -> (Seq<char>, int, bool)
    decreases c.len() - i,
{
    if i < 0 || i >= c.len() {
        (arg, i, quoted)
    } else if !quoted && is_command_ws(c[i]) {
        (arg, i, quoted)
    } else {
        let b = run_of_backslashes(c, i);
        let k = i + b;
        if k < c.len() && c[k] == '"' {
            let with_pairs = arg + backslashes(b / 2);
            if b % 2 == 1 {
                read_argument(c, k + 1, quoted, with_pairs.push('"'))
            } else if quoted && k + 1 < c.len() && c[k + 1] == '"' {
                read_argument(c, k + 2, quoted, with_pairs.push('"'))
            } else {
                read_argument(c, k + 1, !quoted, with_pairs)
            }
        } else {
            let with_all = arg + backslashes(b);
            if k >= c.len() || (!quoted && is_command_ws(c[k])) {
                (with_all, k, quoted)
            } else {
                read_argument(c, k + 1, quoted, with_all.push(c[k]))
            }
        }
    }
}

/// Position of the first character at or after `i` that is not a space or tab.
pub open spec fn skip_command_ws(c: Seq<char>, i: int) -> int
    decreases c.len() - i,
{
    if 0 <= i < c.len() && is_command_ws(c[i]) {
        skip_command_ws(c, i + 1)
    } else {
        i
    }
}

pub proof fn lemma_run_bounds(c: Seq<char>, i: int)
    requires
        0 <= i <= c.len(),
    ensures
        i + run_of_backslashes(c, i) <= c.len(),
        forall|k: int| i <= k < i + run_of_backslashes(c, i) ==> c[k] == '\\',
        i + run_of_backslashes(c, i) < c.len() ==> c[i + run_of_backslashes(c, i)] != '\\',
    decreases c.len() - i,
{
    if i < c.len() && c[i] == '\\' {
        lemma_run_bounds(c, i + 1);
    }
}

pub proof fn lemma_read_argument_advances(c: Seq<char>, i: int, quoted: bool, arg: Seq<char>)
    requires
        0 <= i <= c.len(),
    ensures
        i <= read_argument(c, i, quoted, arg).1 <= c.len(),
        i < c.len() && !is_command_ws(c[i]) ==> i < read_argument(c, i, quoted, arg).1,
    decreases c.len() - i,
{
    if i < c.len() && !(!quoted && is_command_ws(c[i])) {
        lemma_run_bounds(c, i);
        let b = run_of_backslashes(c, i);
        let k = i + b;
        if k < c.len() && c[k] == '"' {
            let with_pairs = arg + backslashes(b / 2);
            if b % 2 == 1 {
                lemma_read_argument_advances(c, k + 1, quoted, with_pairs.push('"'));
            } else if quoted && k + 1 < c.len() && c[k + 1] == '"' {
                lemma_read_argument_advances(c, k + 2, quoted, with_pairs.push('"'));
            } else {
                lemma_read_argument_advances(c, k + 1, !quoted, with_pairs);
            }
        } else {
            let with_all = arg + backslashes(b);
            if !(k >= c.len() || (!quoted && is_command_ws(c[k]))) {
                lemma_read_argument_advances(c, k + 1, quoted, with_all.push(c[k]));
            }
        }
    }
}

pub proof fn lemma_skip_bounds(c: Seq<char>, i: int)
    requires
        0 <= i <= c.len(),
    ensures
        i <= skip_command_ws(c, i) <= c.len(),
        skip_command_ws(c, i) < c.len() ==> !is_command_ws(c[skip_command_ws(c, i)]),
    decreases c.len() - i,
{
    if i < c.len() && is_command_ws(c[i]) {
        lemma_skip_bounds(c, i + 1);
    }
}

/// Splits `c` from position `i` into arguments, appending them to `done`.
/// `None` when an argument leaves a quote open.
pub open spec fn read_arguments(c: Seq<char>, i: int, done: Seq<Seq<char>>) -> Option<Seq<Seq<char>>>
    decreases c.len() - i,
{
    if i < 0 || i > c.len() {
        None
    } else {
        let j = skip_command_ws(c, i);
        if j >= c.len() {
            Some(done)
        } else {
            let (arg, e, quoted) = read_argument(c, j, false, Seq::empty());
            if quoted {
                None
            } else if e <= i || e > c.len() {
                None
            } else {
                read_arguments(c, e, done.push(arg))
            }
        }
    }
}

/// The arguments of a Windows command line under the CRT quoting rules,
/// or `None` when a quote is left open.
pub open spec fn windows_arguments(c: Seq<char>) -> Option<Seq<Seq<char>>> {
    read_arguments(c, 0, Seq::empty())
}

pub open spec fn views_of(v: Seq<String>) -> Seq<Seq<char>> {
    v.map_values(|s: String| s@)
}

fn push_backslashes(argument: &mut String, count: usize)
    ensures
        final(argument)@ == old(argument)@ + backslashes(count as nat),
{
    let mut k: usize = 0;
    while k < count
        invariant
            0 <= k <= count,
            argument@ == old(argument)@ + backslashes(k as nat),
        decreases count - k,
    {
        push_char(argument, '\\');
        assert(old(argument)@ + backslashes((k + 1) as nat) == (old(argument)@ + backslashes(k as nat)).push('\\'));
        k = k + 1;
    }
}

/// Reads one argument starting at a position that is not a space or tab.
fn read_one_argument(chars: &Vec<char>, start: usize) -> (r: (String, usize, bool))
    requires
        start < chars@.len(),
    ensures
        (r.0@, r.1 as int, r.2) == read_argument(chars@, start as int, false, Seq::empty()),
{
    let n = chars.len();
    let ghost c = chars@;
    let mut argument = String::new();
    let mut in_quotes = false;
    let mut index = start;
    while index < n
        invariant
            c == chars@,
            n == c.len(),
            start <= index <= n,
            read_argument(c, index as int, in_quotes, argument@) == read_argument(c, start as int, false, Seq::empty()),
        decreases n - index,
    {
        if !in_quotes && is_command_whitespace(chars[index]) {
            return (argument, index, in_quotes);
        }
        proof {
            lemma_run_bounds(c, index as int);
        }
        let ghost i0 = index;
        let mut count: usize = 0;
        while index < n && chars[index] == '\\'
            invariant
                c == chars@,
                n == c.len(),
                i0 <= index <= n,
                index == i0 + count,
                run_of_backslashes(c, i0 as int) == count + run_of_backslashes(c, index as int),
            decreases n - index,
        {
            index = index + 1;
            count = count + 1;
        }
        assert(run_of_backslashes(c, index as int) == 0);
        if index < n && chars[index] == '"' {
            push_backslashes(&mut argument, count / 2);
            if count % 2 == 1 {
                push_char(&mut argument, '"');
                index = index + 1;
            } else if in_quotes && index + 1 < n && chars[index + 1] == '"' {
                push_char(&mut argument, '"');
                index = index + 2;
            } else {
                in_quotes = !in_quotes;
                index = index + 1;
            }
            continue;
        }
        push_backslashes(&mut argument, count);
        if index == n || (!in_quotes && is_command_whitespace(chars[index])) {
            return (argument, index, in_quotes);
        }
        push_char(&mut argument, chars[index]);
        index = index + 1;
    }
    (argument, index, in_quotes)
}

/// Splits a command line into arguments under the Windows CRT quoting rules,
/// without a shell. Fails exactly when a quote is left open.
pub fn parse_windows_arguments(command: &str) -> (result: Result<Vec<String>, String>)
    ensures
        result is Ok <==> windows_arguments(command@) is Some,
        result matches Ok(args) ==> views_of(args@) == windows_arguments(command@)->0,
        result matches Err(message) ==> message@ == "卸载命令包含未闭合的引号"@,
{
    let chars = chars_of(command);
    let ghost c = chars@;
    let n = chars.len();
    let mut arguments: Vec<String> = Vec::new();
    let mut index: usize = 0;
    assert(views_of(arguments@) =~= Seq::<Seq<char>>::empty());
    loop
        invariant
            c == chars@,
            c == command@,
            n == c.len(),
            0 <= index <= n,
            read_arguments(c, index as int, views_of(arguments@)) == windows_arguments(c),
        decreases n - index,
    {
        proof {
            lemma_skip_bounds(c, index as int);
        }
        let ghost before = index;
        while index < n && is_command_whitespace(chars[index])
            invariant
                c == chars@,
                n == c.len(),
                before <= index <= n,
                skip_command_ws(c, before as int) == skip_command_ws(c, index as int),
            decreases n - index,
        {
            index = index + 1;
        }
        if index == n {
            return Ok(arguments);
        }
        let (argument, end, in_quotes) = read_one_argument(&chars, index);
        proof {
            lemma_read_argument_advances(c, index as int, false, Seq::empty());
        }
        if in_quotes {
            return Err("卸载命令包含未闭合的引号".to_string());
        }
        let ghost old_args = views_of(arguments@);
        arguments.push(argument);
        assert(views_of(arguments@) == old_args.push(argument@));
        index = end;
    }
}

} // verus!

verus! {

/// The whitespace of `u8::is_ascii_whitespace`.
pub open spec fn is_ascii_ws(c: char) -> bool {
    c == ' ' || c == '\t' || c == '\n' || c == '\x0C' || c == '\r'
}

pub open spec fn is_ascii_alpha(c: char) -> bool {
    ('a' <= c <= 'z') || ('A' <= c <= 'Z')
}

/// First position at or after `p` where `.exe` (any case) ends at the end
/// of the text or before ASCII whitespace; gives the position after `.exe`.
pub open spec fn exe_boundary_from(c: Seq<char>, p: int) -> Option<int>
    decreases c.len() - p,
{
    if p < 0 || p + 4 > c.len() {
        None
    } else if lower(c.subrange(p, p + 4)) == ".exe"@ && (p + 4 == c.len() || is_ascii_ws(c[p + 4])) {
        Some(p + 4)
    } else {
        exe_boundary_from(c, p + 1)
    }
}

/// Where an unquoted executable path that contains spaces ends: after the
/// first `.exe` that ends the text or is followed by ASCII whitespace.
pub open spec fn exe_boundary(c: Seq<char>) -> Option<int> {
    exe_boundary_from(c, 0)
}

pub open spec fn looks_absolute(c: Seq<char>) -> bool {
    (c.len() >= 3 && is_ascii_alpha(c[0]) && c[1] == ':' && (c[2] == '\\' || c[2] == '/')) || (
    c.len() >= 2 && c[0] == '\\' && c[1] == '\\')
}

fn is_ascii_whitespace(c: char) -> (r: bool)
    ensures
        r == is_ascii_ws(c),
{
    c == ' ' || c == '\t' || c == '\n' || c == '\x0C' || c == '\r'
}

fn is_ascii_alphabetic(c: char) -> (r: bool)
    ensures
        r == is_ascii_alpha(c),
{
    ('a' <= c && c <= 'z') || ('A' <= c && c <= 'Z')
}

/// Character position just after the executable of an unquoted command line,
/// found at the first `.exe` that ends the text or precedes ASCII whitespace.
pub fn unquoted_executable_boundary(command: &Vec<char>) -> (r: Option<usize>)
    ensures
        r matches Some(k) ==> exe_boundary(command@) == Some(k as int),
        r is None ==> exe_boundary(command@) is None,
{
    let n = command.len();
    let mut p: usize = 0;
    while n >= 4 && p <= n - 4
        invariant
            n == command@.len(),
            exe_boundary(command@) == exe_boundary_from(command@, p as int),
        decreases n - p,
    {
        let is_exe = lower_char_exec(command[p]) == '.' && lower_char_exec(command[p + 1]) == 'e'
            && lower_char_exec(command[p + 2]) == 'x' && lower_char_exec(command[p + 3]) == 'e';
        proof {
            reveal_strlit(".exe");
            let w = command@.subrange(p as int, p + 4);
            assert(lower(w) =~= seq![lower_char(w[0]), lower_char(w[1]), lower_char(w[2]), lower_char(w[3])]);
            assert(".exe"@ =~= seq!['.', 'e', 'x', 'e']);
            assert(is_exe <==> lower(w) == ".exe"@);
        }
        if is_exe && (p + 4 == n || is_ascii_whitespace(command[p + 4])) {
            return Some(p + 4);
        }
        p = p + 1;
    }
    None
}

/// A drive-absolute path (`C:\`, `C:/`) or one that starts with `\\`.
pub fn looks_like_windows_absolute_path(path: &Vec<char>) -> (r: bool)
    ensures
        r == looks_absolute(path@),
{
    (path.len() >= 3 && is_ascii_alphabetic(path[0]) && path[1] == ':' && (path[2] == '\\' || path[2]
        == '/')) || (path.len() >= 2 && path[0] == '\\' && path[1] == '\\')
}

/// Environment variables as name/value pairs; names match without ASCII case,
/// as Windows matches them, and the first match wins.
pub struct Environment {
    pub vars: Vec<(String, String)>,
}

pub open spec fn env_lookup_from(vars: Seq<(String, String)>, name: Seq<char>, i: int) -> Option<Seq<char>>
    decreases vars.len() - i,
{
    if i < 0 || i >= vars.len() {
        None
    } else if eq_ignore_case(vars[i].0@, name) {
        Some(vars[i].1@)
    } else {
        env_lookup_from(vars, name, i + 1)
    }
}

pub open spec fn env_lookup(env: Environment, name: Seq<char>) -> Option<Seq<char>> {
    env_lookup_from(env.vars@, name, 0)
}

impl Environment {
    /// An environment with no variables.
    pub fn empty() -> (env: Self)
        ensures
            env.vars@.len() == 0,
    {
        Environment { vars: Vec::new() }
    }

    pub fn lookup(&self, name: &Vec<char>) -> (r: Option<&String>)
        ensures
            r matches Some(v) ==> env_lookup(*self, name@) == Some(v@),
            r is None ==> env_lookup(*self, name@) is None,
    {
        let mut i: usize = 0;
        while i < self.vars.len()
            invariant
                0 <= i <= self.vars@.len(),
                env_lookup(*self, name@) == env_lookup_from(self.vars@, name@, i as int),
            decreases self.vars@.len() - i,
        {
            let key = chars_of(self.vars[i].0.as_str());
            if eq_ignore_case_exec(&key, name) {
                return Some(&self.vars[i].1);
            }
            i = i + 1;
        }
        None
    }
}

/// Position of the first `c` in `s` at or after `from`.
pub open spec fn find_from(s: Seq<char>, c: char, from: int) -> Option<int>
    decreases s.len() - from,
{
    if from < 0 || from >= s.len() {
        None
    } else if s[from] == c {
        Some(from)
    } else {
        find_from(s, c, from + 1)
    }
}

fn find_char_from(s: &Vec<char>, c: char, from: usize) -> (r: Option<usize>)
    requires
        from <= s@.len(),
    ensures
        r matches Some(k) ==> find_from(s@, c, from as int) == Some(k as int) && from <= k < s@.len(),
        r is None ==> find_from(s@, c, from as int) is None,
{
    let mut i = from;
    while i < s.len()
        invariant
            from <= i <= s@.len(),
            find_from(s@, c, from as int) == find_from(s@, c, i as int),
        decreases s@.len() - i,
    {
        if s[i] == c {
            return Some(i);
        }
        i = i + 1;
    }
    None
}

/// What `%name%` expands to: `%%` for an empty name, the variable's value
/// when it is set, and the reference itself otherwise.
pub open spec fn replacement(env: Environment, name: Seq<char>) -> Seq<char> {
    if name.len() == 0 {
        "%%"@
    } else {
        match env_lookup(env, name) {
            Some(value) => value,
            None => seq!['%'] + name + seq!['%'],
        }
    }
}

/// Expands `%NAME%` references in `s[from..]`, left to right; a lone `%`
/// without a closing one is kept with the rest of the text.
pub open spec fn expand_from(s: Seq<char>, env: Environment, from: int) -> Seq<char>
    decreases s.len() - from,
{
    if from < 0 || from > s.len() {
        Seq::empty()
    } else {
        match find_from(s, '%', from) {
            None => s.subrange(from, s.len() as int),
            Some(start) => match find_from(s, '%', start + 1) {
                None => s.subrange(from, s.len() as int),
                Some(end) => if end + 1 <= from || end >= s.len() || start < from || end <= start {
                    Seq::empty()
                } else {
                    s.subrange(from, start) + replacement(env, s.subrange(start + 1, end))
                        + expand_from(s, env, end + 1)
                },
            },
        }
    }
}

pub open spec fn expand_env(s: Seq<char>, env: Environment) -> Seq<char> {
    expand_from(s, env, 0)
}

proof fn lemma_find_from_bounds(s: Seq<char>, c: char, from: int)
    ensures
        find_from(s, c, from) matches Some(k) ==> from <= k < s.len() && s[k] == c,
    decreases s.len() - from,
{
    if 0 <= from < s.len() && s[from] != c {
        lemma_find_from_bounds(s, c, from + 1);
    }
}

/// Whether `s` holds no `%`.
pub open spec fn free_of_percent(s: Seq<char>) -> bool {
    forall|k: int| 0 <= k < s.len() ==> s[k] != '%'
}

proof fn lemma_find_from_none(s: Seq<char>, c: char, from: int)
    requires
        0 <= from,
        forall|k: int| from <= k < s.len() ==> s[k] != c,
    ensures
        find_from(s, c, from) is None,
    decreases s.len() - from,
{
    if from < s.len() {
        lemma_find_from_none(s, c, from + 1);
    }
}

proof fn lemma_find_from_at(s: Seq<char>, c: char, from: int, at: int)
    requires
        0 <= from <= at < s.len(),
        s[at] == c,
        forall|k: int| from <= k < at ==> s[k] != c,
    ensures
        find_from(s, c, from) == Some(at),
    decreases at - from,
{
    if from < at {
        lemma_find_from_at(s, c, from + 1, at);
    }
}

proof fn lemma_expand_from_plain(s: Seq<char>, env: Environment, from: int)
    requires
        0 <= from <= s.len(),
        forall|k: int| from <= k < s.len() ==> s[k] != '%',
    ensures
        expand_from(s, env, from) == s.subrange(from, s.len() as int),
{
    lemma_find_from_none(s, '%', from);
}

/// Text without a `%` is left as it is.
pub proof fn lemma_expand_plain_text(s: Seq<char>, env: Environment)
    requires
        free_of_percent(s),
    ensures
        expand_env(s, env) == s,
{
    lemma_expand_from_plain(s, env, 0);
    assert(s.subrange(0, s.len() as int) =~= s);
}

/// A text with one reference `%NAME%` and no other `%` expands to the text
/// before the reference, then the variable's value where it is set, or the
/// reference itself where it is not, then the text after the closing `%`.
pub proof fn lemma_expand_single_reference(pre: Seq<char>, name: Seq<char>, post: Seq<char>, env: Environment)
    requires
        free_of_percent(pre),
        free_of_percent(name),
        free_of_percent(post),
        name.len() > 0,
    ensures
        env_lookup(env, name) matches Some(value)
            ==> expand_env(pre + seq!['%'] + name + seq!['%'] + post, env) == pre + value + post,
        env_lookup(env, name) is None
            ==> expand_env(pre + seq!['%'] + name + seq!['%'] + post, env) == pre + seq!['%'] + name + seq!['%'] + post,
{
    let s = pre + seq!['%'] + name + seq!['%'] + post;
    let start = pre.len() as int;
    let end = start + 1 + name.len();
    assert forall|k: int| 0 <= k < start implies s[k] != '%' by {
        assert(s[k] == pre[k]);
    }
    assert(s[start] == '%');
    lemma_find_from_at(s, '%', 0, start);
    assert forall|k: int| start + 1 <= k < end implies s[k] != '%' by {
        assert(s[k] == name[k - start - 1]);
    }
    assert(s[end] == '%');
    lemma_find_from_at(s, '%', start + 1, end);
    assert forall|k: int| end + 1 <= k < s.len() implies s[k] != '%' by {
        assert(s[k] == post[k - end - 1]);
    }
    lemma_expand_from_plain(s, env, end + 1);
    assert(s.subrange(0, start) =~= pre);
    assert(s.subrange(start + 1, end) =~= name);
    assert(s.subrange(end + 1, s.len() as int) =~= post);
    assert(expand_env(s, env) == pre + replacement(env, name) + post);
}

/// `%%` stays `%%`, and a lone `%` without a closing one stays as it is,
/// with the text around it.
pub proof fn lemma_expand_keeps_bare_percents(pre: Seq<char>, post: Seq<char>, env: Environment)
    requires
        free_of_percent(pre),
        free_of_percent(post),
    ensures
        expand_env(pre + seq!['%', '%'] + post, env) == pre + seq!['%', '%'] + post,
        expand_env(pre + seq!['%'] + post, env) == pre + seq!['%'] + post,
{
    let s = pre + seq!['%', '%'] + post;
    let start = pre.len() as int;
    assert forall|k: int| 0 <= k < start implies s[k] != '%' by {
        assert(s[k] == pre[k]);
    }
    lemma_find_from_at(s, '%', 0, start);
    lemma_find_from_at(s, '%', start + 1, start + 1);
    assert forall|k: int| start + 2 <= k < s.len() implies s[k] != '%' by {
        assert(s[k] == post[k - start - 2]);
    }
    lemma_expand_from_plain(s, env, start + 2);
    assert(s.subrange(0, start) =~= pre);
    assert(s.subrange(start + 1, start + 1).len() == 0);
    assert(s.subrange(start + 2, s.len() as int) =~= post);
    reveal_strlit("%%");
    assert(expand_env(s, env) =~= pre + seq!['%', '%'] + post);

    let t = pre + seq!['%'] + post;
    assert forall|k: int| 0 <= k < start implies t[k] != '%' by {
        assert(t[k] == pre[k]);
    }
    lemma_find_from_at(t, '%', 0, start);
    assert forall|k: int| start + 1 <= k < t.len() implies t[k] != '%' by {
        assert(t[k] == post[k - start - 1]);
    }
    lemma_find_from_none(t, '%', start + 1);
    assert(t.subrange(0, t.len() as int) =~= t);
}

fn append_chars(out: &mut String, s: &Vec<char>, lo: usize, hi: usize)
    requires
        lo <= hi <= s@.len(),
    ensures
        final(out)@ == old(out)@ + s@.subrange(lo as int, hi as int),
{
    let mut i = lo;
    while i < hi
        invariant
            lo <= i <= hi <= s@.len(),
            out@ == old(out)@ + s@.subrange(lo as int, i as int),
        decreases hi - i,
    {
        push_char(out, s[i]);
        assert(old(out)@ + s@.subrange(lo as int, i + 1) == (old(out)@ + s@.subrange(lo as int, i as int)).push(s@[i as int]));
        i = i + 1;
    }
}

/// Expands `%NAME%` environment references the way the Windows shell does.
pub fn expand_environment_variables(value: &str, env: &Environment) -> (r: String)
    ensures
        r@ == expand_env(value@, *env),
{
    let s = chars_of(value);
    let n = s.len();
    let mut expanded = String::new();
    let mut remaining: usize = 0;
    loop
        invariant
            s@ == value@,
            n == s@.len(),
            0 <= remaining <= n,
            expanded@ + expand_from(s@, *env, remaining as int) == expand_env(value@, *env),
        decreases n - remaining,
    {
        proof {
            lemma_find_from_bounds(s@, '%', remaining as int);
        }
        match find_char_from(&s, '%', remaining) {
            None => {
                append_chars(&mut expanded, &s, remaining, n);
                return expanded;
            },
            Some(start) => {
                proof {
                    lemma_find_from_bounds(s@, '%', start + 1);
                }
                match find_char_from(&s, '%', start + 1) {
                    None => {
                        append_chars(&mut expanded, &s, remaining, n);
                        return expanded;
                    },
                    Some(end) => {
                        let ghost before = expanded@;
                        append_chars(&mut expanded, &s, remaining, start);
                        if end == start + 1 {
                            push_char(&mut expanded, '%');
                            push_char(&mut expanded, '%');
                            proof {
                                reveal_strlit("%%");
                                assert(s@.subrange(start + 1, end as int).len() == 0);
                                assert(expanded@ == before + s@.subrange(remaining as int, start as int) + "%%"@);
                            }
                        } else {
                            let name = string_of(&s, start + 1, end);
                            let name_chars = chars_of(name.as_str());
                            match env.lookup(&name_chars) {
                                Some(replacement) => {
                                    let replacement_chars = chars_of(replacement.as_str());
                                    let rn = replacement_chars.len();
                                    append_chars(&mut expanded, &replacement_chars, 0, rn);
                                    assert(replacement_chars@.subrange(0, rn as int) == replacement_chars@);
                                },
                                None => {
                                    push_char(&mut expanded, '%');
                                    append_chars(&mut expanded, &s, start + 1, end);
                                    push_char(&mut expanded, '%');
                                    assert(expanded@ == before + s@.subrange(remaining as int, start as int)
                                        + (seq!['%'] + s@.subrange(start + 1, end as int) + seq!['%']));
                                },
                            }
                        }
                        remaining = end + 1;
                    },
                }
            },
        }
    }
}

} // verus!

verus! {

/// An uninstall command split into its executable and its arguments.
#[derive(Debug)]
pub struct ParsedCommand {
    pub executable: String,
    pub arguments: Vec<String>,
}

/// The words of a registered uninstall command before variables are
/// expanded, or the refusal.
///
/// The command is trimmed and must be non-empty and free of NUL. It is split
/// under the CRT quoting rules. An unquoted command with more than one word
/// whose text up to the first `.exe` boundary is an absolute path keeps that
/// whole text as the executable, and the rest is split again.
pub open spec fn uninstall_words(command: Seq<char>) -> Result<Seq<Seq<char>>, Seq<char>> {
    let t = trim(command);
    if t.len() == 0 {
        Err("卸载命令为空"@)
    } else if t.contains('\0') {
        Err("卸载命令包含 NUL 字符"@)
    } else {
        match windows_arguments(t) {
            None => Err("卸载命令包含未闭合的引号"@),
            Some(parts) => if parts.len() == 0 {
                Err("卸载命令没有可执行文件"@)
            } else if t[0] != '"' && parts.len() > 1 && exe_boundary(t) is Some && looks_absolute(
                trim(t.take(exe_boundary(t)->0)),
            ) {
                let b = exe_boundary(t)->0;
                match windows_arguments(trim_start(t.skip(b))) {
                    None => Err("卸载命令包含未闭合的引号"@),
                    Some(rest) => Ok(seq![trim(t.take(b))] + rest),
                }
            } else {
                Ok(parts)
            },
        }
    }
}

pub open spec fn expand_all(words: Seq<Seq<char>>, env: Environment) -> Seq<Seq<char>> {
    words.map_values(|w: Seq<char>| expand_env(w, env))
}

fn expand_words(words: &Vec<String>, from: usize, env: &Environment) -> (r: Vec<String>)
    requires
        from <= words@.len(),
    ensures
        views_of(r@) == expand_all(views_of(words@).skip(from as int), *env),
{
    let mut out: Vec<String> = Vec::new();
    let mut i = from;
    while i < words.len()
        invariant
            from <= i <= words@.len(),
            views_of(out@) == expand_all(views_of(words@).subrange(from as int, i as int), *env),
        decreases words@.len() - i,
    {
        let e = expand_environment_variables(words[i].as_str(), env);
        let ghost before = views_of(out@);
        out.push(e);
        assert(views_of(out@) == before.push(e@));
        assert(views_of(words@).subrange(from as int, i + 1) == views_of(words@).subrange(from as int, i as int).push(words@[i as int]@));
        assert(expand_all(views_of(words@).subrange(from as int, i + 1), *env) =~= expand_all(views_of(words@).subrange(from as int, i as int), *env).push(expand_env(words@[i as int]@, *env)));
        i = i + 1;
    }
    assert(views_of(words@).subrange(from as int, words@.len() as int) =~= views_of(words@).skip(from as int));
    out
}

fn split_uninstall_words(command: &str) -> (r: Result<Vec<String>, String>)
    ensures
        r matches Ok(words) ==> uninstall_words(command@) == Ok::<Seq<Seq<char>>, Seq<char>>(views_of(words@)),
        r matches Err(message) ==> uninstall_words(command@) == Err::<Seq<Seq<char>>, Seq<char>>(message@),
{
    let all = chars_of(command);
    let (lo, hi) = trim_bounds(&all);
    let trimmed = string_of(&all, lo, hi);
    let t = chars_of(trimmed.as_str());
    if t.len() == 0 {
        return Err("卸载命令为空".to_string());
    }
    if contains_char(&t, '\0') {
        return Err("卸载命令包含 NUL 字符".to_string());
    }
    let parts = match parse_windows_arguments(trimmed.as_str()) {
        Ok(parts) => parts,
        Err(message) => return Err(message),
    };
    if parts.len() == 0 {
        return Err("卸载命令没有可执行文件".to_string());
    }
    if t[0] != '"' && parts.len() > 1 {
        if let Some(boundary) = unquoted_executable_boundary(&t) {
            proof {
                lemma_exe_boundary_bounds(t@, 0);
            }
            let (clo, chi) = trim_bounds_range(&t, 0, boundary);
            if looks_like_windows_absolute_path(&slice_vec(&t, clo, chi)) {
                let after = skip_ws_forward(&t, boundary);
                let rest_text = string_of(&t, after, t.len());
                let rest = match parse_windows_arguments(rest_text.as_str()) {
                    Ok(rest) => rest,
                    Err(message) => return Err(message),
                };
                let candidate = string_of(&t, clo, chi);
                let mut words: Vec<String> = Vec::new();
                words.push(candidate);
                let mut k: usize = 0;
                let ghost first = views_of(words@);
                while k < rest.len()
                    invariant
                        0 <= k <= rest@.len(),
                        views_of(words@) == first + views_of(rest@).take(k as int),
                    decreases rest@.len() - k,
                {
                    let w = string_of_string(&rest[k]);
                    let ghost before = views_of(words@);
                    words.push(w);
                    assert(views_of(words@) == before.push(rest@[k as int]@));
                    assert(views_of(rest@).take(k + 1) == views_of(rest@).take(k as int).push(rest@[k as int]@));
                    k = k + 1;
                }
                assert(views_of(rest@).take(rest@.len() as int) == views_of(rest@));
                assert(t@.take(boundary as int) == t@.subrange(0, boundary as int));
                assert(t@.skip(boundary as int) == t@.subrange(boundary as int, t@.len() as int));
                assert(t@ == trim(command@));
                assert(trim(t@.take(boundary as int)) == candidate@);
                assert(trim_start(t@.skip(boundary as int)) == rest_text@);
                assert(first =~= seq![candidate@]);
                assert(views_of(words@) == seq![trim(t@.take(boundary as int))] + windows_arguments(trim_start(t@.skip(boundary as int)))->0);
                return Ok(words);
            }
        }
    }
    Ok(parts)
}

proof fn lemma_exe_boundary_bounds(c: Seq<char>, p: int)
    ensures
        exe_boundary_from(c, p) matches Some(b) ==> 4 <= b <= c.len(),
    decreases c.len() - p,
{
    if !(p < 0 || p + 4 > c.len()) {
        lemma_exe_boundary_bounds(c, p + 1);
    }
}

fn slice_vec(s: &Vec<char>, lo: usize, hi: usize) -> (r: Vec<char>)
    requires
        lo <= hi <= s@.len(),
    ensures
        r@ == s@.subrange(lo as int, hi as int),
{
    let mut out: Vec<char> = Vec::new();
    let mut i = lo;
    while i < hi
        invariant
            lo <= i <= hi <= s@.len(),
            out@ == s@.subrange(lo as int, i as int),
        decreases hi - i,
    {
        out.push(s[i]);
        assert(s@.subrange(lo as int, i + 1) == s@.subrange(lo as int, i as int).push(s@[i as int]));
        i = i + 1;
    }
    out
}

fn string_of_string(s: &String) -> (r: String)
    ensures
        r@ == s@,
{
    s.as_str().to_string()
}

/// Bounds of `s[lo..hi]` once trimmed.
fn trim_bounds_range(s: &Vec<char>, lo: usize, hi: usize) -> (r: (usize, usize))
    requires
        lo <= hi <= s@.len(),
    ensures
        lo <= r.0 <= r.1 <= hi,
        trim(s@.subrange(lo as int, hi as int)) == s@.subrange(r.0 as int, r.1 as int),
{
    let part = slice_vec(s, lo, hi);
    let (a, b) = trim_bounds(&part);
    assert(part@.subrange(a as int, b as int) == s@.subrange(lo + a, lo + b));
    (lo + a, lo + b)
}

/// Splits a registered uninstall command into its executable and arguments
/// and expands `%NAME%` references in each, without a shell.
pub fn parse_uninstall_command(command: &str, env: &Environment) -> (result: Result<ParsedCommand, String>)
    ensures
        result matches Ok(parsed) ==> uninstall_words(command@) matches Ok(words) && words.len() > 0
            && parsed.executable@ == expand_env(words[0], *env)
            && views_of(parsed.arguments@) == expand_all(words.skip(1), *env),
        result matches Err(message) ==> uninstall_words(command@) == Err::<Seq<Seq<char>>, Seq<char>>(message@),
        uninstall_words(command@) is Ok ==> result is Ok,
{
    let words = match split_uninstall_words(command) {
        Ok(words) => words,
        Err(message) => return Err(message),
    };
    proof {
        let w = uninstall_words(command@)->Ok_0;
        assert(w.len() > 0);
        assert(views_of(words@).len() == words@.len());
    }
    if words.len() == 0 {
        return Err("卸载命令没有可执行文件".to_string());
    }
    let executable = expand_environment_variables(words[0].as_str(), env);
    let arguments = expand_words(&words, 1, env);
    Ok(ParsedCommand { executable, arguments })
}

} // verus!

verus! {

/// Where an application's icon is read from: a resource file and an index.
#[derive(Clone, Debug, PartialEq, Eq)]
pub struct IconSource {
    pub path: String,
    pub index: i32,
}

pub open spec fn is_digit(c: char) -> bool {
    '0' <= c <= '9'
}

/// The value of a run of decimal digits.
pub open spec fn digits_value(s: Seq<char>) -> int
    decreases s.len(),
{
    if s.len() == 0 {
        0
    } else {
        digits_value(s.drop_last()) * 10 + (s.last() as int - '0' as int)
    }
}

/// The digits of a number once an optional leading sign is removed.
pub open spec fn digits_part(s: Seq<char>) -> Seq<char> {
    if s.len() > 0 && (s[0] == '-' || s[0] == '+') {
        s.skip(1)
    } else {
        s
    }
}

pub open spec fn all_digits(d: Seq<char>) -> bool {
    forall|k: int| 0 <= k < d.len() ==> is_digit(#[trigger] d[k])
}

/// The value of `str::parse::<i32>`: an optional sign, at least one digit,
/// and a value in range.
pub open spec fn parse_i32_spec(s: Seq<char>) -> Option<i32> {
    let digits = digits_part(s);
    if digits.len() == 0 || !all_digits(digits) {
        None
    } else {
        let v = if s.len() > 0 && s[0] == '-' {
            -digits_value(digits)
        } else {
            digits_value(digits)
        };
        if i32::MIN <= v <= i32::MAX {
            Some(v as i32)
        } else {
            None
        }
    }
}

proof fn lemma_digits_value_grows(s: Seq<char>, k: int)
    requires
        0 <= k <= s.len(),
        forall|j: int| 0 <= j < s.len() ==> is_digit(#[trigger] s[j]),
    ensures
        0 <= digits_value(s.take(k)) <= digits_value(s),
    decreases s.len() - k,
{
    if k < s.len() {
        lemma_digits_value_grows(s, k + 1);
        assert(s.take(k + 1).drop_last() == s.take(k));
        assert(s.take(k + 1).last() == s[k]);
    } else {
        assert(s.take(k) == s);
        lemma_digits_value_nonneg(s);
    }
}

proof fn lemma_digits_value_nonneg(s: Seq<char>)
    requires
        forall|j: int| 0 <= j < s.len() ==> is_digit(#[trigger] s[j]),
    ensures
        0 <= digits_value(s),
    decreases s.len(),
{
    if s.len() > 0 {
        assert forall|j: int| 0 <= j < s.drop_last().len() implies is_digit(#[trigger] s.drop_last()[j]) by {
            assert(s.drop_last()[j] == s[j]);
        }
        lemma_digits_value_nonneg(s.drop_last());
    }
}

/// Parses `s[lo..hi]` as `str::parse::<i32>` does.
pub fn parse_i32(s: &Vec<char>, lo: usize, hi: usize) -> (r: Option<i32>)
    requires
        lo <= hi <= s@.len(),
    ensures
        r == parse_i32_spec(s@.subrange(lo as int, hi as int)),
{
    let ghost t = s@.subrange(lo as int, hi as int);
    let mut start = lo;
    let negative = lo < hi && s[lo] == '-';
    if lo < hi && (s[lo] == '-' || s[lo] == '+') {
        start = lo + 1;
    }
    let ghost digits = s@.subrange(start as int, hi as int);
    assert(digits == digits_part(t));
    if start == hi {
        return None;
    }
    let mut i = start;
    while i < hi
        invariant
            lo <= start <= i <= hi <= s@.len(),
            digits == s@.subrange(start as int, hi as int),
            t == s@.subrange(lo as int, hi as int),
            digits == digits_part(t),
            negative == (t.len() > 0 && t[0] == '-'),
            forall|k: int| start <= k < i ==> is_digit(#[trigger] s@[k]),
        decreases hi - i,
    {
        if !('0' <= s[i] && s[i] <= '9') {
            assert(!is_digit(digits[i - start]));
            assert(!all_digits(digits));
            assert(parse_i32_spec(t) is None);
            return None;
        }
        i = i + 1;
    }
    assert(forall|k: int| 0 <= k < digits.len() ==> is_digit(#[trigger] digits[k])) by {
        assert forall|k: int| 0 <= k < digits.len() implies is_digit(#[trigger] digits[k]) by {
            assert(digits[k] == s@[start + k]);
        }
    }
    let mut value: i64 = 0;
    let mut j = start;
    while j < hi
        invariant
            lo <= start <= j <= hi <= s@.len(),
            digits == s@.subrange(start as int, hi as int),
            t == s@.subrange(lo as int, hi as int),
            digits == digits_part(t),
            negative == (t.len() > 0 && t[0] == '-'),
            forall|k: int| 0 <= k < digits.len() ==> is_digit(#[trigger] digits[k]),
            value == digits_value(digits.take(j - start)),
            0 <= value <= 2147483648,
        decreases hi - j,
    {
        assert(digits[j - start] == s@[j as int]);
        assert(is_digit(digits[j - start]));
        let d = (s[j] as u32 - '0' as u32) as i64;
        assert(digits.take(j - start + 1).drop_last() == digits.take(j - start));
        assert(digits.take(j - start + 1).last() == s@[j as int]);
        let next = value * 10 + d;
        if next > 2147483648 {
            proof {
                lemma_digits_value_grows(digits, j - start + 1);
                assert(digits_value(digits.take(j - start + 1)) == next);
                assert(digits_value(digits) > 2147483648);
                assert(parse_i32_spec(t) is None);
            }
            return None;
        }
        value = next;
        j = j + 1;
    }
    assert(digits.take(j - start) == digits);
    if negative {
        Some((-value) as i32)
    } else if value > 2147483647 {
        None
    } else {
        Some(value as i32)
    }
}

} // verus!

verus! {

/// Position of the last `c` in `s[..to]`.
pub open spec fn rfind_before(s: Seq<char>, c: char, to: int) -> Option<int>
    decreases to,
{
    if to <= 0 || to > s.len() {
        None
    } else if s[to - 1] == c {
        Some(to - 1)
    } else {
        rfind_before(s, c, to - 1)
    }
}

pub open spec fn rfind(s: Seq<char>, c: char) -> Option<int> {
    rfind_before(s, c, s.len() as int)
}

pub open spec fn starts_with(s: Seq<char>, prefix: Seq<char>) -> bool {
    prefix.len() <= s.len() && s.take(prefix.len() as int) == prefix
}

/// Bytes that a character takes in UTF-8.
pub open spec fn utf8_width(c: char) -> nat {
    let u = c as u32;
    if u < 0x80 {
        1
    } else if u < 0x800 {
        2
    } else if u < 0x10000 {
        3
    } else {
        4
    }
}

/// Bytes that a text takes in UTF-8, which `str::len` reports.
pub open spec fn utf8_len(s: Seq<char>) -> nat
    decreases s.len(),
{
    if s.len() == 0 {
        0
    } else {
        utf8_len(s.drop_last()) + utf8_width(s.last())
    }
}

/// Whether a text takes more than `limit` bytes in UTF-8.
pub fn utf8_longer_than(s: &Vec<char>, limit: u64) -> (r: bool)
    ensures
        r == (utf8_len(s@) > limit),
{
    let mut total: u64 = 0;
    let mut i: usize = 0;
    while i < s.len()
        invariant
            0 <= i <= s@.len(),
            total == utf8_len(s@.take(i as int)),
            total <= limit,
        decreases s@.len() - i,
    {
        let u = s[i] as u32;
        let w: u64 = if u < 0x80 { 1 } else if u < 0x800 { 2 } else if u < 0x10000 { 3 } else { 4 };
        assert(s@.take(i + 1).drop_last() == s@.take(i as int));
        if w > limit - total {
            proof {
                lemma_utf8_len_prefix(s@, i + 1);
            }
            return true;
        }
        total = total + w;
        i = i + 1;
    }
    assert(s@.take(i as int) == s@);
    false
}

proof fn lemma_utf8_len_prefix(s: Seq<char>, k: int)
    requires
        0 <= k <= s.len(),
    ensures
        utf8_len(s.take(k)) <= utf8_len(s),
    decreases s.len() - k,
{
    if k < s.len() {
        lemma_utf8_len_prefix(s, k + 1);
        assert(s.take(k + 1).drop_last() == s.take(k));
    } else {
        assert(s.take(k) == s);
    }
}

/// The path and index that a `DisplayIcon` value names before expansion,
/// from its location text.
pub open spec fn icon_location_parts(location: Seq<char>) -> Option<(Seq<char>, i32)> {
    if location.len() > 0 && location[0] == '"' {
        let quoted = location.skip(1);
        match find_from(quoted, '"', 0) {
            None => None,
            Some(q) => {
                let suffix = trim(quoted.skip(q + 1));
                if suffix.len() == 0 {
                    Some((quoted.take(q), 0i32))
                } else if suffix[0] == ',' {
                    match parse_i32_spec(trim(suffix.skip(1))) {
                        Some(i) => Some((quoted.take(q), i)),
                        None => None,
                    }
                } else {
                    None
                }
            },
        }
    } else {
        match rfind(location, ',') {
            Some(comma) => {
                let suffix = trim(location.skip(comma + 1));
                if suffix.len() == 0 {
                    None
                } else {
                    match parse_i32_spec(suffix) {
                        Some(i) => Some((location.take(comma), i)),
                        None => Some((location, 0i32)),
                    }
                }
            },
            None => Some((location, 0i32)),
        }
    }
}

/// The icon that a registry `DisplayIcon` value names, or `None` when the
/// value is empty, too long, holds NUL, is an indirect package resource or a
/// malformed index.
pub open spec fn display_icon_spec(value: Seq<char>, env: Environment) -> Option<(Seq<char>, i32)> {
    let original = trim(value);
    if !bounded_text(original) || starts_with(original, "@{"@) {
        None
    } else {
        let location = trim_start(
            if original[0] == '@' {
                original.skip(1)
            } else {
                original
            },
        );
        match icon_location_parts(location) {
            None => None,
            Some((raw, index)) => {
                let path = expand_env(trim(raw), env);
                if !bounded_text(path) || starts_with(lower(path), "ms-resource:"@) {
                    None
                } else {
                    Some((path, index))
                }
            },
        }
    }
}

fn rfind_char(s: &Vec<char>, c: char) -> (r: Option<usize>)
    ensures
        r matches Some(k) ==> rfind(s@, c) == Some(k as int) && k < s@.len(),
        r is None ==> rfind(s@, c) is None,
{
    let mut to = s.len();
    while to > 0
        invariant
            0 <= to <= s@.len(),
            rfind(s@, c) == rfind_before(s@, c, to as int),
        decreases to,
    {
        if s[to - 1] == c {
            return Some(to - 1);
        }
        to = to - 1;
    }
    None
}

fn starts_with_lit(s: &Vec<char>, lit: &str) -> (r: bool)
    ensures
        r == starts_with(s@, lit@),
{
    let p = chars_of(lit);
    if p.len() > s.len() {
        return false;
    }
    let mut i: usize = 0;
    while i < p.len()
        invariant
            p@ == lit@,
            p@.len() <= s@.len(),
            0 <= i <= p@.len(),
            forall|k: int| 0 <= k < i ==> s@[k] == p@[k],
        decreases p@.len() - i,
    {
        if s[i] != p[i] {
            assert(s@.take(p@.len() as int)[i as int] != p@[i as int]);
            return false;
        }
        i = i + 1;
    }
    assert(s@.take(p@.len() as int) =~= p@);
    true
}

fn vec_of_string(s: &String) -> (r: Vec<char>)
    ensures
        r@ == s@,
{
    chars_of(s.as_str())
}

/// Trims `s[lo..hi]` and gives it as a new vector.
fn trimmed_slice(s: &Vec<char>, lo: usize, hi: usize) -> (r: Vec<char>)
    requires
        lo <= hi <= s@.len(),
    ensures
        r@ == trim(s@.subrange(lo as int, hi as int)),
{
    let (a, b) = trim_bounds_range(s, lo, hi);
    slice_vec(s, a, b)
}

fn icon_location(location: &Vec<char>) -> (r: Option<(Vec<char>, i32)>)
    ensures
        r matches Some((p, i)) ==> icon_location_parts(location@) == Some((p@, i)),
        r is None ==> icon_location_parts(location@) is None,
{
    let n = location.len();
    if n > 0 && location[0] == '"' {
        let quoted = slice_vec(location, 1, n);
        assert(quoted@ == location@.skip(1));
        proof {
            lemma_find_from_bounds(quoted@, '"', 0);
        }
        let closing = match find_char_from(&quoted, '"', 0) {
            Some(q) => q,
            None => return None,
        };
        let path = slice_vec(&quoted, 0, closing);
        assert(path@ == quoted@.take(closing as int));
        let suffix = trimmed_slice(&quoted, closing + 1, quoted.len());
        assert(quoted@.subrange(closing + 1, quoted@.len() as int) == quoted@.skip(closing + 1));
        if suffix.len() == 0 {
            return Some((path, 0));
        }
        if suffix[0] == ',' {
            let number = trimmed_slice(&suffix, 1, suffix.len());
            assert(suffix@.subrange(1, suffix@.len() as int) == suffix@.skip(1));
            let nn = number.len();
            assert(number@.subrange(0, nn as int) == number@);
            match parse_i32(&number, 0, nn) {
                Some(index) => Some((path, index)),
                None => None,
            }
        } else {
            None
        }
    } else {
        match rfind_char(location, ',') {
            Some(comma) => {
                let suffix = trimmed_slice(location, comma + 1, n);
                assert(location@.subrange(comma + 1, n as int) == location@.skip(comma + 1));
                if suffix.len() == 0 {
                    return None;
                }
                let sn = suffix.len();
                assert(suffix@.subrange(0, sn as int) == suffix@);
                match parse_i32(&suffix, 0, sn) {
                    Some(index) => {
                        let path = slice_vec(location, 0, comma);
                        assert(path@ == location@.take(comma as int));
                        Some((path, index))
                    },
                    None => {
                        let whole = slice_vec(location, 0, n);
                        assert(whole@ == location@.subrange(0, n as int));
                        assert(location@.subrange(0, n as int) == location@);
                        Some((whole, 0))
                    },
                }
            },
            None => {
                let whole = slice_vec(location, 0, n);
                assert(location@.subrange(0, n as int) == location@);
                Some((whole, 0))
            },
        }
    }
}

pub open spec fn bounded_text(s: Seq<char>) -> bool {
    s.len() != 0 && utf8_len(s) <= 32767 && !s.contains('\0')
}

fn is_bounded_text(s: &Vec<char>) -> (r: bool)
    ensures
        r == bounded_text(s@),
{
    s.len() != 0 && !utf8_longer_than(s, 32767) && !contains_char(s, '\0')
}

/// The location text of a `DisplayIcon` value: without a leading `@` and the
/// whitespace after it.
fn icon_location_text(o: &Vec<char>) -> (r: Vec<char>)
    requires
        o@.len() > 0,
    ensures
        r@ == trim_start(if o@[0] == '@' { o@.skip(1) } else { o@ }),
{
    let start: usize = if o[0] == '@' { 1 } else { 0 };
    let after = skip_ws_forward(o, start);
    assert(o@.subrange(start as int, o@.len() as int) == (if o@[0] == '@' {
        o@.skip(1)
    } else {
        o@
    }));
    slice_vec(o, after, o.len())
}

/// The expanded path of an icon from its raw text.
fn icon_path(raw: &Vec<char>, env: &Environment) -> (r: String)
    ensures
        r@ == expand_env(trim(raw@), *env),
{
    let rn = raw.len();
    let t = trimmed_slice(raw, 0, rn);
    assert(raw@.subrange(0, rn as int) == raw@);
    let tn = t.len();
    let text = string_of(&t, 0, tn);
    assert(t@.subrange(0, tn as int) == t@);
    expand_environment_variables(text.as_str(), env)
}

/// Reads a registry `DisplayIcon` value: a path, optionally quoted and
/// optionally `@`-prefixed, with an optional `,index` resource suffix.
#[verifier::rlimit(30)]
pub fn parse_display_icon(value: &str, env: &Environment) -> (r: Option<IconSource>)
    ensures
        r matches Some(icon) ==> display_icon_spec(value@, *env) == Some((icon.path@, icon.index)),
        r is None ==> display_icon_spec(value@, *env) is None,
{
    let all = chars_of(value);
    let (lo, hi) = trim_bounds(&all);
    let o = slice_vec(&all, lo, hi);
    if !is_bounded_text(&o) || starts_with_lit(&o, "@{") {
        return None;
    }
    let location = icon_location_text(&o);
    let (raw, index) = match icon_location(&location) {
        Some(parts) => parts,
        None => return None,
    };
    let path = icon_path(&raw, env);
    let p = vec_of_string(&path);
    let lower_path = lower_vec(&p);
    if !is_bounded_text(&p) || starts_with_lit(&lower_path, "ms-resource:") {
        return None;
    }
    Some(IconSource { path, index })
}

} // verus!

verus! {

/// Whether `s` is one of `names`.
pub open spec fn one_of(s: Seq<char>, names: Seq<&str>) -> bool {
    exists|i: int| 0 <= i < names.len() && names[i]@ == s
}

/// Whether `s` is one of `names`, compared exactly.
pub fn is_one_of(s: &Vec<char>, names: &[&str]) -> (r: bool)
    ensures
        r == one_of(s@, names@),
{
    let mut i: usize = 0;
    while i < names.len()
        invariant
            0 <= i <= names@.len(),
            forall|k: int| 0 <= k < i ==> names@[k]@ != s@,
        decreases names@.len() - i,
    {
        let candidate = chars_of(names[i]);
        if vec_eq(&candidate, s) {
            return true;
        }
        i = i + 1;
    }
    false
}

/// Whether two character vectors hold the same text.
pub fn vec_eq(a: &Vec<char>, b: &Vec<char>) -> (r: bool)
    ensures
        r == (a@ == b@),
{
    if a.len() != b.len() {
        return false;
    }
    let mut i: usize = 0;
    while i < a.len()
        invariant
            a@.len() == b@.len(),
            0 <= i <= a@.len(),
            forall|k: int| 0 <= k < i ==> a@[k] == b@[k],
        decreases a@.len() - i,
    {
        if a[i] != b[i] {
            return false;
        }
        i = i + 1;
    }
    assert(a@ =~= b@);
    true
}

/// Programs whose icon says nothing about the application they uninstall.
pub open spec fn blocked_icon_fallbacks() -> Seq<&'static str> {
    seq![
        "msiexec.exe",
        "rundll32.exe",
        "cmd.exe",
        "powershell.exe",
        "pwsh.exe",
        "wscript.exe",
        "cscript.exe",
        "mshta.exe",
        "regsvr32.exe",
        "bash.exe",
        "sh.exe",
        "wsl.exe",
    ]
}

/// Whether a file name (any case) is a system installer or interpreter.
pub fn is_blocked_icon_fallback(file_name: &Vec<char>) -> (r: bool)
    ensures
        r == one_of(lower(file_name@), blocked_icon_fallbacks()),
{
    let names: [&str; 12] = [
        "msiexec.exe",
        "rundll32.exe",
        "cmd.exe",
        "powershell.exe",
        "pwsh.exe",
        "wscript.exe",
        "cscript.exe",
        "mshta.exe",
        "regsvr32.exe",
        "bash.exe",
        "sh.exe",
        "wsl.exe",
    ];
    assert(names@ == blocked_icon_fallbacks());
    let lowered = lower_vec(file_name);
    is_one_of(&lowered, &names)
}

pub open spec fn drive_absolute(c: Seq<char>) -> bool {
    c.len() >= 3 && is_ascii_alpha(c[0]) && c[1] == ':' && (c[2] == '\\' || c[2] == '/')
}

/// A drive-absolute path, directly or behind the `\\?\` prefix.
pub open spec fn local_absolute(c: Seq<char>) -> bool {
    drive_absolute(c) || (c.len() > 4 && c[0] == '\\' && c[1] == '\\' && c[2] == '?' && c[3] == '\\'
        && drive_absolute(c.skip(4)))
}

pub fn looks_like_local_windows_absolute_path(path: &Vec<char>) -> (r: bool)
    ensures
        r == local_absolute(path@),
{
    let n = path.len();
    let direct = n >= 3 && is_ascii_alphabetic(path[0]) && path[1] == ':' && (path[2] == '\\'
        || path[2] == '/');
    if direct {
        return true;
    }
    n > 4 && path[0] == '\\' && path[1] == '\\' && path[2] == '?' && path[3] == '\\' && n >= 7
        && is_ascii_alphabetic(path[4]) && path[5] == ':' && (path[6] == '\\' || path[6] == '/')
}

/// The text after the last `\` or `/`.
pub open spec fn last_segment(c: Seq<char>) -> Seq<char> {
    match rfind_sep(c, c.len() as int) {
        Some(k) => c.skip(k + 1),
        None => c,
    }
}

pub open spec fn rfind_sep(c: Seq<char>, to: int) -> Option<int>
    decreases to,
{
    if to <= 0 || to > c.len() {
        None
    } else if c[to - 1] == '\\' || c[to - 1] == '/' {
        Some(to - 1)
    } else {
        rfind_sep(c, to - 1)
    }
}

/// Whether a file name has an extension (after its last `.`) equal to `exe`
/// in any case.
pub open spec fn has_exe_extension(name: Seq<char>) -> bool {
    match rfind(name, '.') {
        Some(dot) => eq_ignore_case(name.skip(dot + 1), "exe"@),
        None => false,
    }
}

/// The icon that an uninstall command's own executable can supply: a local,
/// absolute `.exe` that is not a system installer or interpreter.
pub open spec fn command_icon_spec(command: Seq<char>, env: Environment) -> Option<Seq<char>> {
    match uninstall_words(command) {
        Err(_) => None,
        Ok(words) => if words.len() == 0 {
            None
        } else {
            let path = trim(expand_env(words[0], env));
            let name = last_segment(path);
            if !local_absolute(path) || one_of(lower(name), blocked_icon_fallbacks())
                || !has_exe_extension(name) {
                None
            } else {
                Some(path)
            }
        },
    }
}

pub fn last_segment_of(c: &Vec<char>) -> (r: Vec<char>)
    ensures
        r@ == last_segment(c@),
{
    let mut to = c.len();
    while to > 0
        invariant
            0 <= to <= c@.len(),
            rfind_sep(c@, c@.len() as int) == rfind_sep(c@, to as int),
        decreases to,
    {
        if c[to - 1] == '\\' || c[to - 1] == '/' {
            return slice_vec(c, to, c.len());
        }
        to = to - 1;
    }
    let n = c.len();
    assert(c@.subrange(0, n as int) == c@);
    slice_vec(c, 0, n)
}

fn has_exe_extension_exec(name: &Vec<char>) -> (r: bool)
    ensures
        r == has_exe_extension(name@),
{
    match rfind_char(name, '.') {
        Some(dot) => {
            let n = name.len();
            assert(dot < n);
            let ext = slice_vec(name, dot + 1, n);
            assert(ext@ == name@.skip(dot + 1));
            eq_ignore_case_str(&ext, "exe")
        },
        None => false,
    }
}

/// The icon of an uninstall command's own executable, used when the registry
/// names no display icon.
pub fn command_icon_source(command: &str, env: &Environment) -> (r: Option<IconSource>)
    ensures
        r matches Some(icon) ==> command_icon_spec(command@, *env) == Some(icon.path@) && icon.index == 0,
        r is None ==> command_icon_spec(command@, *env) is None,
{
    let parsed = match parse_uninstall_command(command, env) {
        Ok(parsed) => parsed,
        Err(_) => return None,
    };
    let exe = vec_of_string(&parsed.executable);
    let path = trimmed_slice(&exe, 0, exe.len());
    assert(exe@.subrange(0, exe@.len() as int) == exe@);
    if !looks_like_local_windows_absolute_path(&path) {
        return None;
    }
    let file_name = last_segment_of(&path);
    if is_blocked_icon_fallback(&file_name) || !has_exe_extension_exec(&file_name) {
        return None;
    }
    let pn = path.len();
    assert(path@.subrange(0, pn as int) == path@);
    Some(IconSource { path: string_of(&path, 0, pn), index: 0 })
}

/// The visible uninstall command, unless the registry blocks removal; a
/// quiet-only registration has none.
pub fn select_visible_uninstaller(uninstall_string: Option<String>, removal_blocked: bool) -> (r: Option<String>)
    ensures
        removal_blocked ==> r is None,
        !removal_blocked ==> r == uninstall_string,
{
    if removal_blocked {
        None
    } else {
        uninstall_string
    }
}

} // verus!
