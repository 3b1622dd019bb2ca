//! Reduction of the child process's captured output to a single result:
//! on a success exit, the last non-blank line of standard output, trimmed,
//! is the result path; on a failure exit, trimmed standard error becomes
//! the failure message behind a fixed prefix.

use vstd::prelude::*;
use vstd::seq_lib::*;
use vstd::string::StrSliceExecFns;
use vstd::string::StringExecFns;
use crate::views::opt_str_view;

verus! {

/// Whitespace as the Unicode `White_Space` property defines it — the
/// characters trimmed from line ends, and the ones a blank line is made of.
pub open spec fn is_space_char(c: char) -> bool {
    c == '\u{9}' || c == '\u{a}' || c == '\u{b}' || c == '\u{c}' || c == '\u{d}' || c == ' '
        || c == '\u{85}' || c == '\u{a0}' || c == '\u{1680}' || c == '\u{2000}' || c == '\u{2001}'
        || c == '\u{2002}' || c == '\u{2003}' || c == '\u{2004}' || c == '\u{2005}'
        || c == '\u{2006}' || c == '\u{2007}' || c == '\u{2008}' || c == '\u{2009}'
        || c == '\u{200a}' || c == '\u{2028}' || c == '\u{2029}' || c == '\u{202f}'
        || c == '\u{205f}' || c == '\u{3000}'
}

fn is_space(c: char) -> (b: bool)
    ensures
        b == is_space_char(c),
{
    c == '\u{9}' || c == '\u{a}' || c == '\u{b}' || c == '\u{c}' || c == '\u{d}' || c == ' '
        || c == '\u{85}' || c == '\u{a0}' || c == '\u{1680}' || c == '\u{2000}' || c == '\u{2001}'
        || c == '\u{2002}' || c == '\u{2003}' || c == '\u{2004}' || c == '\u{2005}'
        || c == '\u{2006}' || c == '\u{2007}' || c == '\u{2008}' || c == '\u{2009}'
        || c == '\u{200a}' || c == '\u{2028}' || c == '\u{2029}' || c == '\u{202f}'
        || c == '\u{205f}' || c == '\u{3000}'
}

/// `s` without its leading whitespace.
pub open spec fn spec_trim_start(s: Seq<char>) -> Seq<char>
    decreases s.len(),
{
    if s.len() > 0 && is_space_char(s[0]) {
        spec_trim_start(s.drop_first())
    } else {
        s
    }
}

/// `s` without its trailing whitespace.
pub open spec fn spec_trim_end(s: Seq<char>) -> Seq<char>
    decreases s.len(),
{
    if s.len() > 0 && is_space_char(s.last()) {
        spec_trim_end(s.drop_last())
    } else {
        s
    }
}

/// `s` without surrounding whitespace.
pub open spec fn spec_trim(s: Seq<char>) -> Seq<char> {
    spec_trim_end(spec_trim_start(s))
}

proof fn lemma_trim_start_skip(s: Seq<char>, a: int)
    requires
        0 <= a <= s.len(),
        forall|k: int| 0 <= k < a ==> is_space_char(s[k]),
    ensures
        spec_trim_start(s) == spec_trim_start(s.skip(a)),
    decreases a,
{
    if a == 0 {
        assert(s.skip(0) =~= s);
    } else {
        assert(is_space_char(s[0]));
        assert(spec_trim_start(s) == spec_trim_start(s.drop_first()));
        assert(s.drop_first() =~= s.skip(1));
        lemma_trim_start_skip(s.skip(1), a - 1);
        assert(s.skip(1).skip(a - 1) =~= s.skip(a));
    }
}

proof fn lemma_trim_end_take(s: Seq<char>, b: int)
    requires
        0 <= b <= s.len(),
        forall|k: int| b <= k < s.len() ==> is_space_char(s[k]),
    ensures
        spec_trim_end(s) == spec_trim_end(s.take(b)),
    decreases s.len() - b,
{
    if b == s.len() {
        assert(s.take(b) =~= s);
    } else {
        assert(is_space_char(s.last()));
        assert(spec_trim_end(s) == spec_trim_end(s.drop_last()));
        assert(s.drop_last() =~= s.take(s.len() - 1));
        lemma_trim_end_take(s.take(s.len() - 1), b);
        assert(s.take(s.len() - 1).take(b) =~= s.take(b));
    }
}

/// Removes surrounding whitespace, as `spec_trim` describes.
pub fn trim_str(s: &str) -> (t: String)
    ensures
        t@ == spec_trim(s@),
{
    let n = s.unicode_len();
    let mut a: usize = 0;
    while a < n && is_space(s.get_char(a))
        invariant
            n == s@.len(),
            a <= n,
            forall|k: int| 0 <= k < a ==> is_space_char(s@[k]),
        decreases n - a,
    {
        a = a + 1;
    }
    let mut b: usize = n;
    while b > a && is_space(s.get_char(b - 1))
        invariant
            n == s@.len(),
            a <= b <= n,
            forall|k: int| b <= k < n ==> is_space_char(s@[k]),
        decreases b,
    {
        b = b - 1;
    }
    let t = String::from_str(s.substring_char(a, b));
    proof {
        lemma_trim_start_skip(s@, a as int);
        let u = s@.skip(a as int);
        if a == n {
            assert(u.len() == 0);
            assert(spec_trim_start(u) == u);
            assert(b == n);
            assert(t@ =~= spec_trim(s@));
        } else {
            assert(!is_space_char(s@[a as int]));
            assert(u[0] == s@[a as int]);
            assert(spec_trim_start(u) == u);
            assert(b > a);
            assert(!is_space_char(s@[b as int - 1]));
            assert(forall|k: int| b - a <= k < u.len() ==> is_space_char(#[trigger] u[k]));
            lemma_trim_end_take(u, b - a);
            let v = u.take(b - a);
            assert(v =~= s@.subrange(a as int, b as int));
            assert(v.last() == s@[b as int - 1]);
            assert(spec_trim_end(v) == v);
            assert(t@ =~= spec_trim(s@));
        }
    }
    t
}

/// Index of the first newline in `s`; `s.len()` when there is none.
pub open spec fn first_newline(s: Seq<char>) -> nat
    decreases s.len(),
{
    if s.len() == 0 {
        0
    } else if s[0] == '\n' {
        0
    } else {
        1 + first_newline(s.drop_first())
    }
}

/// The lines of `s`, split on `\n`; a trailing newline yields no extra
/// empty line, and an empty `s` has no lines.
pub open spec fn spec_lines(s: Seq<char>) -> Seq<Seq<char>>
    decreases s.len(),
{
    if s.len() == 0 {
        Seq::empty()
    } else {
        let i = first_newline(s) as int;
        if i < s.len() {
            seq![s.take(i)] + spec_lines(s.skip(i + 1))
        } else {
            seq![s]
        }
    }
}

proof fn lemma_first_newline_at(t: Seq<char>, j: int)
    requires
        0 <= j <= t.len(),
        forall|k: int| 0 <= k < j ==> t[k] != '\n',
        j < t.len() ==> t[j] == '\n',
    ensures
        first_newline(t) == j,
    decreases j,
{
    if j == 0 {
    } else {
        assert(t[0] != '\n');
        let u = t.drop_first();
        assert(forall|k: int| 0 <= k < j - 1 ==> #[trigger] u[k] == t[k + 1]);
        lemma_first_newline_at(u, j - 1);
    }
}

/// Splits into lines, as `spec_lines` describes.
pub fn split_lines(s: &str) -> (lines: Vec<String>)
    ensures
        lines@.map_values(|l: String| l@) == spec_lines(s@),
{
    let n = s.unicode_len();
    let mut lines: Vec<String> = Vec::new();
    let mut start: usize = 0;
    let mut i: usize = 0;
    proof {
        assert(s@.skip(0) =~= s@);
        assert(lines@.map_values(|l: String| l@) =~= Seq::<Seq<char>>::empty());
    }
    while i < n
        invariant
            n == s@.len(),
            start <= i <= n,
            forall|k: int| start <= k < i ==> s@[k] != '\n',
            spec_lines(s@) == lines@.map_values(|l: String| l@) + spec_lines(
                s@.skip(start as int),
            ),
        decreases n - i,
    {
        if s.get_char(i) == '\n' {
            let piece = String::from_str(s.substring_char(start, i));
            proof {
                let t = s@.skip(start as int);
                assert(forall|k: int|
                    0 <= k < i - start ==> #[trigger] t[k] == s@[k + start as int]);
                lemma_first_newline_at(t, i - start as int);
                assert(t.take(i - start as int) =~= s@.subrange(start as int, i as int));
                assert(t.skip(i - start as int + 1) =~= s@.skip(i as int + 1));
                assert(spec_lines(t) == seq![piece@] + spec_lines(s@.skip(i as int + 1)));
                let old_map = lines@.map_values(|l: String| l@);
                assert(lines@.push(piece).map_values(|l: String| l@) =~= old_map.push(piece@));
                assert(old_map + (seq![piece@] + spec_lines(s@.skip(i as int + 1))) =~= old_map.push(
                    piece@,
                ) + spec_lines(s@.skip(i as int + 1)));
            }
            lines.push(piece);
            start = i + 1;
        }
        i = i + 1;
    }
    if start < n {
        let piece = String::from_str(s.substring_char(start, n));
        proof {
            let t = s@.skip(start as int);
            assert(forall|k: int| 0 <= k < t.len() ==> #[trigger] t[k] == s@[k + start as int]);
            lemma_first_newline_at(t, t.len() as int);
            assert(t =~= s@.subrange(start as int, n as int));
            assert(spec_lines(t) == seq![t]);
            let old_map = lines@.map_values(|l: String| l@);
            assert(lines@.push(piece).map_values(|l: String| l@) =~= old_map.push(piece@));
            assert(old_map + seq![t] =~= old_map.push(piece@));
        }
        lines.push(piece);
    } else {
        proof {
            assert(s@.skip(start as int).len() == 0);
            assert(spec_lines(s@.skip(start as int)) =~= Seq::<Seq<char>>::empty());
            assert(lines@.map_values(|l: String| l@) + Seq::<Seq<char>>::empty()
                =~= lines@.map_values(|l: String| l@));
        }
    }
    lines
}

/// The trimmed form of the last line whose trimmed form is non-empty.
pub open spec fn spec_last_nonblank(ls: Seq<Seq<char>>) -> Option<Seq<char>>
    decreases ls.len(),
{
    if ls.len() == 0 {
        None
    } else if spec_trim(ls.last()).len() > 0 {
        Some(spec_trim(ls.last()))
    } else {
        spec_last_nonblank(ls.drop_last())
    }
}

/// What a success exit's standard output yields: the last non-blank line,
/// trimmed, or nothing when every line is blank.
pub open spec fn spec_final_path(stdout: Seq<char>) -> Option<Seq<char>> {
    spec_last_nonblank(spec_lines(stdout))
}

/// Scans standard output from the end for the result path, as
/// `spec_final_path` describes; a returned path is never empty.
pub fn extract_final_path(stdout: &str) -> (r: Option<String>)
    ensures
        opt_str_view(r) == spec_final_path(stdout@),
        r matches Some(p) ==> p@.len() > 0,
{
    let lines = split_lines(stdout);
    let ghost lviews = lines@.map_values(|l: String| l@);
    let mut i: usize = lines.len();
    proof {
        assert(lviews.take(i as int) =~= lviews);
    }
    while i > 0
        invariant
            i <= lines@.len(),
            lviews == lines@.map_values(|l: String| l@),
            lviews == spec_lines(stdout@),
            spec_final_path(stdout@) == spec_last_nonblank(lviews.take(i as int)),
        decreases i,
    {
        let t = trim_str(lines[i - 1].as_str());
        proof {
            assert(lviews.take(i as int).last() == lviews[i as int - 1]);
            assert(lviews[i as int - 1] == lines@[i as int - 1]@);
        }
        if !t.as_str().is_empty() {
            return Some(t);
        }
        proof {
            assert(lviews.take(i as int).drop_last() =~= lviews.take(i as int - 1));
        }
        i = i - 1;
    }
    None
}

/// The fixed message for a success exit that reported no result path.
pub open spec fn spec_no_path_message() -> Seq<char> {
    "File2Book succeeded but did not report an output path."@
}

/// The fixed prefix put before standard error when the tool fails.
pub open spec fn spec_failure_prefix() -> Seq<char> {
    "File2Book failed: "@
}

/// Reduces the child process's exit flag and captured streams to the
/// invocation's result: on success, the extracted result path (or the
/// contract-violation message when there is none); on failure, trimmed
/// standard error behind the fixed prefix. A reported success never
/// carries an empty path.
pub fn interpret_tool_output(success: bool, stdout: &str, stderr: &str) -> (r: Result<
    String,
    String,
>)
    ensures
        success ==> (match spec_final_path(stdout@) {
            Some(p) => r matches Ok(s) && s@ == p,
            None => r matches Err(m) && m@ == spec_no_path_message(),
        }),
        !success ==> (r matches Err(m) && m@ == spec_failure_prefix() + spec_trim(stderr@)),
        r matches Ok(s) ==> s@.len() > 0,
{
    if success {
        match extract_final_path(stdout) {
            Some(p) => Ok(p),
            None => Err(String::from_str("File2Book succeeded but did not report an output path.")),
        }
    } else {
        let mut m = String::from_str("File2Book failed: ");
        let t = trim_str(stderr);
        m.append(t.as_str());
        Err(m)
    }
}

} // verus!
