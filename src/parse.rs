use vstd::prelude::*;
use vstd::string::StringExecFns;
use crate::text::{chars_of, is_whitespace, is_ws, slice_string, trim, trim_end, trim_start};

verus! {

/// One fortune: its text and the file it was read from.
#[derive(Debug, Clone)]
pub struct Fortune {
    pub source: String,
    pub text: String,
}

/// A line ends at `i`: the text ends there, or a newline (`\n` or `\r\n`) starts there.
pub open spec fn line_ends_at(s: Seq<char>, i: int) -> bool {
    i == s.len() || s[i] == '\n' || (s[i] == '\r' && (i + 1 == s.len() || s[i + 1] == '\n'))
}

/// A delimiter line starts at `i`: the line holds `%` and nothing else.
pub open spec fn delim_at(s: Seq<char>, i: int) -> bool {
    &&& 0 <= i < s.len()
    &&& s[i] == '%'
    &&& (i == 0 || s[i - 1] == '\n')
    &&& line_ends_at(s, i + 1)
}

/// The pieces of `s` between delimiter lines, the current one starting at `start`
/// and the scan standing at `i`.
pub open spec fn pieces_from(s: Seq<char>, start: int, i: int) -> Seq<Seq<char>>
    decreases s.len() - i,
{
    if i >= s.len() {
        seq![s.subrange(start, s.len() as int)]
    } else if delim_at(s, i) {
        seq![s.subrange(start, i)] + pieces_from(s, i + 1, i + 1)
    } else {
        pieces_from(s, start, i + 1)
    }
}

/// The pieces of `s` that the delimiter lines separate, in order.
pub open spec fn pieces(s: Seq<char>) -> Seq<Seq<char>> {
    pieces_from(s, 0, 0)
}

/// The trimmed pieces that are not empty, in order.
pub open spec fn kept(ps: Seq<Seq<char>>) -> Seq<Seq<char>>
    decreases ps.len(),
{
    if ps.len() == 0 {
        seq![]
    } else {
        let r = kept(ps.drop_last());
        let t = trim(ps.last());
        if t.len() > 0 {
            r.push(t)
        } else {
            r
        }
    }
}

/// The texts of the fortunes that a file with contents `s` holds.
pub open spec fn records(s: Seq<char>) -> Seq<Seq<char>> {
    kept(pieces(s))
}

/// Whether a line of `cs` ends at `i`.
fn line_ends(cs: &Vec<char>, i: usize) -> (r: bool)
    requires
        i <= cs.len(),
    ensures
        r == line_ends_at(cs@, i as int),
{
    i == cs.len() || cs[i] == '\n' || (cs[i] == '\r' && (i + 1 == cs.len() || cs[i + 1] == '\n'))
}

/// The bounds of `cs[a..b]` once whitespace is removed at both ends.
fn trimmed_bounds(cs: &Vec<char>, a: usize, b: usize) -> (r: (usize, usize))
    requires
        a <= b <= cs.len(),
    ensures
        a <= r.0 <= r.1 <= b,
        cs@.subrange(r.0 as int, r.1 as int) == trim(cs@.subrange(a as int, b as int)),
{
    let mut lo: usize = a;
    while lo < b && is_whitespace(cs[lo])
        invariant
            a <= lo <= b <= cs.len(),
            trim_start(cs@.subrange(a as int, b as int)) == trim_start(
                cs@.subrange(lo as int, b as int),
            ),
        decreases b - lo,
    {
        assert(cs@.subrange(lo as int, b as int).drop_first() =~= cs@.subrange(
            lo + 1,
            b as int,
        ));
        lo = lo + 1;
    }
    assert(trim_start(cs@.subrange(lo as int, b as int)) == cs@.subrange(lo as int, b as int));
    let mut hi: usize = b;
    while hi > lo && is_whitespace(cs[hi - 1])
        invariant
            a <= lo <= hi <= b <= cs.len(),
            trim_end(cs@.subrange(lo as int, b as int)) == trim_end(
                cs@.subrange(lo as int, hi as int),
            ),
        decreases hi - lo,
    {
        assert(cs@.subrange(lo as int, hi as int).drop_last() =~= cs@.subrange(
            lo as int,
            hi - 1,
        ));
        hi = hi - 1;
    }
    assert(trim_end(cs@.subrange(lo as int, hi as int)) == cs@.subrange(lo as int, hi as int));
    (lo, hi)
}

/// Splits the contents of one file into fortunes, each marked with `source`.
///
/// A line that holds `%` alone separates two fortunes; each piece is trimmed of
/// whitespace at both ends and dropped when nothing is left. Inner whitespace and
/// line breaks are kept as they are.
pub fn parse_fortunes(source: &str, content: &str) -> (r: Vec<Fortune>)
    ensures
        r.len() == records(content@).len(),
        forall|k: int|
            0 <= k < r.len() ==> (#[trigger] r[k]).text@ == records(content@)[k] && r[k].source@
                == source@,
{
    let cs = chars_of(content);
    let n = cs.len();
    let mut r: Vec<Fortune> = Vec::new();
    let mut start: usize = 0;
    let mut i: usize = 0;
    let ghost mut done: Seq<Seq<char>> = seq![];
    while i < n
        invariant
            n == cs.len(),
            cs@ == content@,
            start <= i <= n,
            done + pieces_from(cs@, start as int, i as int) == pieces(cs@),
            r.len() == kept(done).len(),
            forall|k: int|
                0 <= k < r.len() ==> (#[trigger] r[k]).text@ == kept(done)[k] && r[k].source@
                    == source@,
        decreases n - i,
    {
        if cs[i] == '%' && (i == 0 || cs[i - 1] == '\n') && line_ends(&cs, i + 1) {
            let ghost piece = cs@.subrange(start as int, i as int);
            assert(done.push(piece) + pieces_from(cs@, i + 1, i + 1) =~= done + pieces_from(
                cs@,
                start as int,
                i as int,
            ));
            push_trimmed(&mut r, source, content, &cs, start, i, Ghost(done));
            proof {
                done = done.push(piece);
            }
            i = i + 1;
            start = i;
        } else {
            i = i + 1;
        }
    }
    let ghost piece = cs@.subrange(start as int, n as int);
    assert(done.push(piece) =~= done + pieces_from(cs@, start as int, i as int));
    push_trimmed(&mut r, source, content, &cs, start, n, Ghost(done));
    r
}

/// Appends the piece `cs[a..b]`, trimmed, unless nothing of it is left.
fn push_trimmed(
    r: &mut Vec<Fortune>,
    source: &str,
    content: &str,
    cs: &Vec<char>,
    a: usize,
    b: usize,
    done: Ghost<Seq<Seq<char>>>,
)
    requires
        a <= b <= cs.len(),
        cs@ == content@,
        old(r).len() == kept(done@).len(),
        forall|k: int|
            0 <= k < old(r).len() ==> (#[trigger] old(r)[k]).text@ == kept(done@)[k]
                && old(r)[k].source@ == source@,
    ensures
        final(r).len() == kept(done@.push(cs@.subrange(a as int, b as int))).len(),
        forall|k: int|
            0 <= k < final(r).len() ==> (#[trigger] final(r)[k]).text@ == kept(
                done@.push(cs@.subrange(a as int, b as int)),
            )[k] && final(r)[k].source@ == source@,
{
    let ghost ps = done@.push(cs@.subrange(a as int, b as int));
    assert(ps.drop_last() =~= done@);
    let (lo, hi) = trimmed_bounds(cs, a, b);
    if lo < hi {
        let text = slice_string(content, lo, hi);
        let src = String::from_str(source);
        r.push(Fortune { source: src, text });
    }
}

} // verus!
