use vstd::prelude::*;

use crate::text::{contains_text, occurs_in};

verus! {

/// The number of characters of `s` before its first newline.
pub open spec fn line_len(s: Seq<char>) -> nat
    decreases s.len(),
{
    if s.len() == 0 || s[0] == '\n' {
        0
    } else {
        1 + line_len(s.drop_first())
    }
}

/// The first line of `s` in which `pat` occurs, if there is one.
pub open spec fn first_line_with(s: Seq<char>, pat: Seq<char>) -> Option<Seq<char>>
    decreases s.len(),
{
    let n = line_len(s);
    if occurs_in(pat, s.take(n as int)) {
        Some(s.take(n as int))
    } else if n >= s.len() {
        None
    } else {
        first_line_with(s.skip(n as int + 1), pat)
    }
}

/// What follows the last `c` in `l`; all of `l` when it holds no `c`.
pub open spec fn after_last(l: Seq<char>, c: char) -> Seq<char>
    decreases l.len(),
{
    if l.len() == 0 {
        l
    } else if l.last() == c {
        Seq::empty()
    } else {
        after_last(l.drop_last(), c).push(l.last())
    }
}

/// `l` without its double quotes and spaces.
pub open spec fn unquoted(l: Seq<char>) -> Seq<char>
    decreases l.len(),
{
    if l.len() == 0 {
        l
    } else if l.last() == '"' || l.last() == ' ' {
        unquoted(l.drop_last())
    } else {
        unquoted(l.drop_last()).push(l.last())
    }
}

/// The name of the executable that a package manifest describes: taken from
/// the first line that mentions `name`, after its last `=`, without quotes
/// and spaces; with `.exe` added for a Windows target. `None` when no line
/// mentions `name`.
pub open spec fn executable_name_of(target_triple: Seq<char>, manifest: Seq<char>) -> Option<Seq<char>> {
    match first_line_with(manifest, "name"@) {
        Some(line) => Some(
            unquoted(after_last(line, '='))
                + if occurs_in("windows"@, target_triple) {
                ".exe"@
            } else {
                Seq::<char>::empty()
            },
        ),
        None => None,
    }
}

proof fn lemma_line_len(s: Seq<char>, j: int)
    requires
        0 <= j <= s.len(),
        forall|m: int| 0 <= m < j ==> s[m] != '\n',
        j == s.len() || s[j] == '\n',
    ensures
        line_len(s) == j,
    decreases j,
{
    if j > 0 {
        lemma_line_len(s.drop_first(), j - 1);
    }
}

proof fn lemma_after_last(l: Seq<char>, c: char, k: int)
    requires
        -1 <= k < l.len(),
        k >= 0 ==> l[k] == c,
        forall|m: int| k < m < l.len() ==> l[m] != c,
    ensures
        after_last(l, c) == l.skip(k + 1),
    decreases l.len(),
{
    if l.len() == 0 {
        assert(l.skip(k + 1) =~= l);
    } else if l.last() == c {
        assert(k == l.len() - 1);
        assert(l.skip(k + 1) =~= Seq::<char>::empty());
    } else {
        lemma_after_last(l.drop_last(), c, k);
        assert(l.drop_last().skip(k + 1).push(l.last()) =~= l.skip(k + 1));
    }
}

/// The first line of `manifest` that mentions `name`.
fn name_line<'a>(manifest: &'a str) -> (r: Option<&'a str>)
    ensures
        match first_line_with(manifest@, "name"@) {
            Some(line) => r is Some && r->Some_0@ == line,
            None => r is None,
        },
{
    let mut rest: &'a str = manifest;
    loop
        invariant
            first_line_with(rest@, "name"@) == first_line_with(manifest@, "name"@),
        decreases rest@.len(),
    {
        let len = rest.unicode_len();
        let mut j: usize = 0;
        while j < len && rest.get_char(j) != '\n'
            invariant
                j <= len,
                len == rest@.len(),
                forall|m: int| 0 <= m < j ==> rest@[m] != '\n',
            decreases len - j,
        {
            j = j + 1;
        }
        proof {
            lemma_line_len(rest@, j as int);
        }
        let line = rest.substring_char(0, j);
        assert(line@ == rest@.take(j as int));
        if contains_text(line, "name") {
            return Some(line);
        }
        if j >= len {
            return None;
        }
        rest = rest.substring_char(j + 1, len);
        assert(rest@.len() < len);
    }
}

/// What follows the last `=` in `line`.
fn value_part<'a>(line: &'a str) -> (r: &'a str)
    ensures
        r@ == after_last(line@, '='),
{
    let len = line.unicode_len();
    let mut start: usize = 0;
    let mut i: usize = 0;
    while i < len
        invariant
            start <= i <= len,
            len == line@.len(),
            start > 0 ==> line@[start - 1] == '=',
            forall|m: int| start <= m < i ==> line@[m] != '=',
        decreases len - i,
    {
        if line.get_char(i) == '=' {
            start = i + 1;
        }
        i = i + 1;
    }
    proof {
        lemma_after_last(line@, '=', start - 1);
    }
    line.substring_char(start, len)
}

/// `s` without its double quotes and spaces.
fn strip_quotes(s: &str) -> (r: String)
    ensures
        r@ == unquoted(s@),
{
    let len = s.unicode_len();
    let mut out = String::new();
    let mut i: usize = 0;
    while i < len
        invariant
            i <= len,
            len == s@.len(),
            out@ == unquoted(s@.take(i as int)),
        decreases len - i,
    {
        let ch = s.get_char(i);
        let ghost before = out@;
        if ch != '"' && ch != ' ' {
            out.append(s.substring_char(i, i + 1));
            assert(out@ =~= before.push(ch));
        }
        assert(s@.take(i + 1).drop_last() =~= s@.take(i as int));
        i = i + 1;
    }
    assert(s@.take(len as int) =~= s@);
    out
}

/// Reads the executable's name out of the text of a package manifest, for a
/// build for `target_triple`; `None` when no line mentions `name`.
pub fn get_executable_name(target_triple: &str, manifest: &str) -> (r: Option<String>)
    ensures
        match executable_name_of(target_triple@, manifest@) {
            Some(n) => r is Some && r->Some_0@ == n,
            None => r is None,
        },
{
    match name_line(manifest) {
        None => None,
        Some(line) => {
            let mut name = strip_quotes(value_part(line));
            let ghost base = name@;
            proof {
                reveal_strlit(".exe");
            }
            if contains_text(target_triple, "windows") {
                name.append(".exe");
            } else {
                assert(base + Seq::<char>::empty() =~= base);
            }
            Some(name)
        },
    }
}

} // verus!
