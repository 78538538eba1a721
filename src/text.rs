//! Character-level helpers shared by the protocol modules.

use vstd::prelude::*;
use vstd::string::*;

verus! {

/// Relies on `str::chars` collected into a `Vec`: the characters of `s`, in order.
#[verifier::external_body]
pub(crate) fn chars_of(s: &str) -> (r: Vec<char>)
    ensures
        r@ == s@,
{
    s.chars().collect()
}

/// The views of a list of lines.
pub open spec fn line_views(lines: Seq<String>) -> Seq<Seq<char>> {
    lines.map_values(|l: String| l@)
}

pub proof fn lemma_line_views_push(s: Seq<String>, x: String)
    ensures
        line_views(s.push(x)) == line_views(s).push(x@),
{
    assert(line_views(s.push(x)) =~= line_views(s).push(x@));
}

/// Appends `line` to `lines`.
pub fn push_line(lines: &mut Vec<String>, line: String)
    ensures
        final(lines)@ == old(lines)@.push(line),
        line_views(final(lines)@) == line_views(old(lines)@).push(line@),
{
    proof {
        lemma_line_views_push(lines@, line);
    }
    lines.push(line);
}

/// `s` ends with a line feed.
pub open spec fn ends_with_lf(s: Seq<char>) -> bool {
    s.len() > 0 && s.last() == '\n'
}

/// A line as received, without its trailing CRLF or LF.
pub open spec fn without_line_ending(s: Seq<char>) -> Seq<char> {
    if s.len() >= 2 && s[s.len() - 2] == '\r' && s.last() == '\n' {
        s.subrange(0, s.len() - 2)
    } else if ends_with_lf(s) {
        s.drop_last()
    } else {
        s
    }
}

/// A line as sent: with CRLF appended unless it already ends in a line feed.
pub open spec fn with_line_ending(s: Seq<char>) -> Seq<char> {
    if ends_with_lf(s) {
        s
    } else {
        s + seq!['\r', '\n']
    }
}

/// Removes one trailing CRLF or LF from a line read from the server.
pub fn trim_line_ending(line: &str) -> (r: String)
    ensures
        r@ == without_line_ending(line@),
{
    let cs = chars_of(line);
    let n = cs.len();
    if n >= 2 && cs[n - 2] == '\r' && cs[n - 1] == '\n' {
        String::from_str(line.substring_char(0, n - 2))
    } else if n >= 1 && cs[n - 1] == '\n' {
        String::from_str(line.substring_char(0, n - 1))
    } else {
        String::from_str(line)
    }
}

/// The text to write for one protocol line: CRLF is appended unless the
/// line already ends in a line feed.
pub fn terminate_line(line: &str) -> (r: String)
    ensures
        r@ == with_line_ending(line@),
{
    let cs = chars_of(line);
    let n = cs.len();
    let mut r = String::from_str(line);
    if n == 0 || cs[n - 1] != '\n' {
        proof {
            reveal_strlit("\r\n");
        }
        r.append("\r\n");
    }
    r
}

/// `t` occurs in `s` starting at position `i`.
pub open spec fn occurs_at(s: Seq<char>, t: Seq<char>, i: int) -> bool {
    0 <= i && i + t.len() <= s.len() && s.subrange(i, i + t.len()) == t
}

/// `i` is the leftmost position at which `t` occurs in `s`.
pub open spec fn first_occurrence(s: Seq<char>, t: Seq<char>, i: int) -> bool {
    &&& occurs_at(s, t, i)
    &&& forall|j: int| 0 <= j < i ==> !#[trigger] occurs_at(s, t, j)
}

/// The leftmost occurrence of `t` in `s` is unique.
pub proof fn lemma_first_occurrence_unique(s: Seq<char>, t: Seq<char>, i: int, j: int)
    requires
        first_occurrence(s, t, i),
        first_occurrence(s, t, j),
    ensures
        i == j,
{
    if i < j {
        assert(!occurs_at(s, t, i));
    } else if j < i {
        assert(!occurs_at(s, t, j));
    }
}

/// Whether `t` occurs in `hay` at position `i`.
pub fn occurs_at_exec(hay: &Vec<char>, t: &Vec<char>, i: usize) -> (r: bool)
    ensures
        r == occurs_at(hay@, t@, i as int),
{
    if i > hay.len() || t.len() > hay.len() - i {
        return false;
    }
    let n = hay.len();
    let mut k: usize = 0;
    while k < t.len()
        invariant
            n == hay@.len(),
            i + t@.len() <= hay@.len(),
            k <= t@.len(),
            forall|l: int| 0 <= l < k ==> hay@[i + l] == t@[l],
        decreases t@.len() - k,
    {
        if hay[i + k] != t[k] {
            assert(hay@.subrange(i as int, i + t@.len())[k as int] != t@[k as int]);
            return false;
        }
        k += 1;
    }
    assert(hay@.subrange(i as int, i + t@.len()) =~= t@);
    true
}

/// The leftmost position at which `t` occurs in `hay`, if any.
pub fn find_first(hay: &Vec<char>, t: &Vec<char>) -> (r: Option<usize>)
    ensures
        match r {
            Some(i) => first_occurrence(hay@, t@, i as int),
            None => forall|j: int| !#[trigger] occurs_at(hay@, t@, j),
        },
{
    if t.len() > hay.len() {
        return None;
    }
    let last = hay.len() - t.len();
    let mut i: usize = 0;
    loop
        invariant
            last == hay@.len() - t@.len(),
            i <= last,
            forall|j: int| 0 <= j < i ==> !#[trigger] occurs_at(hay@, t@, j),
        decreases last - i,
    {
        if occurs_at_exec(hay, t, i) {
            return Some(i);
        }
        if i == last {
            return None;
        }
        i += 1;
    }
}

} // verus!
