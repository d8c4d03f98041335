use vstd::prelude::*;
use crate::order::{lemma_lex_irreflexive, lemma_lex_transitive, lex_lt, strictly_sorted, views};
use crate::parse::{delim_at, kept, pieces, pieces_from, records};
use crate::resolve::{contributed, gathered, Probe};
use crate::select::{matching, picked_text, pick_index, regex_finds, texts};
use crate::parse::Fortune;
use crate::text::trim;

verus! {

/// Two sorted sequences without repeats that hold the same elements are equal.
pub proof fn lemma_sorted_unique(a: Seq<Seq<char>>, b: Seq<Seq<char>>)
    requires
        strictly_sorted(a),
        strictly_sorted(b),
        a.to_set() == b.to_set(),
    ensures
        a == b,
    decreases a.len(),
{
    if a.len() == 0 {
        if b.len() > 0 {
            assert(b.to_set().contains(b[0]));
        }
        assert(a =~= b);
    } else if b.len() == 0 {
        assert(a.to_set().contains(a[0]));
    } else {
        assert(b.to_set().contains(a[0]));
        assert(a.to_set().contains(b[0]));
        let k = choose|k: int| 0 <= k < b.len() && b[k] == a[0];
        let m = choose|m: int| 0 <= m < a.len() && a[m] == b[0];
        if k > 0 {
            assert(lex_lt(b[0], a[0]));
            if m > 0 {
                assert(lex_lt(a[0], b[0]));
                lemma_lex_transitive(a[0], b[0], a[0]);
            }
            lemma_lex_irreflexive(a[0]);
        }
        let x = a[0];
        let ra = a.drop_first();
        let rb = b.drop_first();
        assert(strictly_sorted(ra));
        assert(strictly_sorted(rb));
        assert forall|s: Seq<char>| ra.to_set().contains(s) <==> rb.to_set().contains(s) by {
            if ra.contains(s) {
                let i = choose|i: int| 0 <= i < ra.len() && ra[i] == s;
                assert(a[i + 1] == s);
                assert(lex_lt(x, s));
                lemma_lex_irreflexive(s);
                assert(b.to_set().contains(s));
                let j = choose|j: int| 0 <= j < b.len() && b[j] == s;
                assert(j != 0);
                assert(rb[j - 1] == s);
            }
            if rb.contains(s) {
                let i = choose|i: int| 0 <= i < rb.len() && rb[i] == s;
                assert(b[i + 1] == s);
                assert(lex_lt(x, s));
                lemma_lex_irreflexive(s);
                assert(a.to_set().contains(s));
                let j = choose|j: int| 0 <= j < a.len() && a[j] == s;
                assert(j != 0);
                assert(ra[j - 1] == s);
            }
        }
        assert(ra.to_set() =~= rb.to_set());
        lemma_sorted_unique(ra, rb);
        assert(a =~= seq![x] + ra);
        assert(b =~= seq![x] + rb);
    }
}

proof fn lemma_gathered_push(paths: Seq<Seq<char>>, probes: Seq<Probe>, p: Probe)
    ensures
        gathered(paths, Seq::<Probe>::empty()) == Set::<Seq<char>>::empty(),
        gathered(paths, probes.push(p)) == gathered(paths, probes).union(
            contributed(paths[probes.len() as int], p),
        ),
{
    assert(probes.push(p).drop_last() =~= probes);
}

/// Resolving one path that is a regular file gives exactly that path.
pub proof fn lemma_single_file(p: Seq<char>, out: Seq<Seq<char>>)
    requires
        strictly_sorted(out),
        out.to_set() == gathered(seq![p], seq![Probe::File]),
    ensures
        out == seq![p],
{
    let ps = seq![Probe::File];
    assert(ps =~= Seq::<Probe>::empty().push(Probe::File));
    lemma_gathered_push(seq![p], Seq::<Probe>::empty(), Probe::File);
    assert(gathered(seq![p], ps) =~= set![p]);
    assert(seq![p].to_set() =~= set![p]) by {
        assert(seq![p][0] == p);
    }
    assert(strictly_sorted(seq![p]));
    lemma_sorted_unique(out, seq![p]);
}

/// A directory contributes exactly the files right in it, and naming it twice
/// contributes nothing more.
pub proof fn lemma_directory_named_twice(d: Seq<char>, children: Vec<String>)
    ensures
        gathered(seq![d], seq![Probe::Dir(children)]) == views(children@).to_set(),
        gathered(seq![d, d], seq![Probe::Dir(children), Probe::Dir(children)]) == views(
            children@,
        ).to_set(),
{
    let one = seq![Probe::Dir(children)];
    let two = seq![Probe::Dir(children), Probe::Dir(children)];
    let e = Seq::<Probe>::empty();
    assert(one =~= e.push(Probe::Dir(children)));
    assert(two =~= one.push(Probe::Dir(children)));
    lemma_gathered_push(seq![d], e, Probe::Dir(children));
    lemma_gathered_push(seq![d, d], e, Probe::Dir(children));
    lemma_gathered_push(seq![d, d], one, Probe::Dir(children));
    assert(gathered(seq![d], one) =~= views(children@).to_set());
    assert(gathered(seq![d, d], one) =~= views(children@).to_set());
    assert(gathered(seq![d, d], two) =~= views(children@).to_set());
}

/// Naming the first of two paths once more at the end changes nothing: the
/// resolved lists are equal.
pub proof fn lemma_repeated_path(
    a: Seq<char>,
    b: Seq<char>,
    pa: Probe,
    pb: Probe,
    once: Seq<Seq<char>>,
    again: Seq<Seq<char>>,
)
    requires
        strictly_sorted(once),
        strictly_sorted(again),
        once.to_set() == gathered(seq![a, b], seq![pa, pb]),
        again.to_set() == gathered(seq![a, b, a], seq![pa, pb, pa]),
    ensures
        again == once,
{
    let p2 = seq![pa, pb];
    let p3 = seq![pa, pb, pa];
    let e = Seq::<Probe>::empty();
    assert(p3 =~= p2.push(pa));
    assert(p2 =~= seq![pa].push(pb));
    assert(seq![pa] =~= e.push(pa));
    lemma_gathered_push(seq![a, b, a], p2, pa);
    lemma_gathered_push(seq![a, b, a], seq![pa], pb);
    lemma_gathered_push(seq![a, b, a], e, pa);
    lemma_gathered_push(seq![a, b], seq![pa], pb);
    lemma_gathered_push(seq![a, b], e, pa);
    let g1 = gathered(seq![a, b, a], seq![pa]);
    assert(gathered(seq![a, b], seq![pa]) =~= g1);
    assert(gathered(seq![a, b, a], p2) =~= gathered(seq![a, b], p2));
    assert(gathered(seq![a, b, a], p3) =~= gathered(seq![a, b], p2));
    lemma_sorted_unique(again, once);
}

/// Two directories, each holding one file, and the files differ: the resolved
/// list has both files.
pub proof fn lemma_two_directories(
    a: Seq<char>,
    b: Seq<char>,
    ca: Vec<String>,
    cb: Vec<String>,
    out: Seq<Seq<char>>,
)
    requires
        ca@.len() == 1,
        cb@.len() == 1,
        ca@[0]@ != cb@[0]@,
        strictly_sorted(out),
        out.to_set() == gathered(seq![a, b], seq![Probe::Dir(ca), Probe::Dir(cb)]),
    ensures
        out.len() == 2,
        out.to_set() == set![ca@[0]@, cb@[0]@],
{
    let p2 = seq![Probe::Dir(ca), Probe::Dir(cb)];
    let e = Seq::<Probe>::empty();
    assert(p2 =~= seq![Probe::Dir(ca)].push(Probe::Dir(cb)));
    assert(seq![Probe::Dir(ca)] =~= e.push(Probe::Dir(ca)));
    lemma_gathered_push(seq![a, b], seq![Probe::Dir(ca)], Probe::Dir(cb));
    lemma_gathered_push(seq![a, b], e, Probe::Dir(ca));
    let x = ca@[0]@;
    let y = cb@[0]@;
    assert(views(ca@) =~= seq![x]);
    assert(views(cb@) =~= seq![y]);
    assert(seq![x].to_set() =~= set![x]) by {
        assert(seq![x][0] == x);
    }
    assert(seq![y].to_set() =~= set![y]) by {
        assert(seq![y][0] == y);
    }
    assert(out.to_set() =~= set![x, y]);
    assert(out.no_duplicates()) by {
        assert forall|i: int, j: int| 0 <= i < out.len() && 0 <= j < out.len() && i != j implies out[i]
            != out[j] by {
            lemma_lex_irreflexive(out[i]);
        }
    }
    out.unique_seq_to_set();
    assert(set![x, y].len() == 2) by {
        assert(set![x].len() == 1);
    }
}

proof fn lemma_pieces_without_delimiter(s: Seq<char>, i: int)
    requires
        0 <= i <= s.len(),
        forall|k: int| 0 <= k < s.len() ==> !delim_at(s, k),
    ensures
        pieces_from(s, 0, i) == seq![s],
    decreases s.len() - i,
{
    if i < s.len() {
        lemma_pieces_without_delimiter(s, i + 1);
    } else {
        assert(s.subrange(0, s.len() as int) =~= s);
    }
}

/// Without a delimiter line a file holds one fortune, its whole trimmed content,
/// or none when that is empty.
pub proof fn lemma_no_delimiter(s: Seq<char>)
    requires
        forall|k: int| 0 <= k < s.len() ==> !delim_at(s, k),
    ensures
        trim(s).len() > 0 ==> records(s) == seq![trim(s)],
        trim(s).len() == 0 ==> records(s).len() == 0,
{
    lemma_pieces_without_delimiter(s, 0);
    assert(pieces(s) == seq![s]);
    assert(seq![s].drop_last() =~= Seq::<Seq<char>>::empty());
    assert(kept(Seq::<Seq<char>>::empty()) == Seq::<Seq<char>>::empty());
    if trim(s).len() > 0 {
        assert(Seq::<Seq<char>>::empty().push(trim(s)) =~= seq![trim(s)]);
    }
}

/// A pattern that matches no fortune's text selects nothing.
pub proof fn lemma_no_match_selects_nothing(
    fs: Seq<(Seq<char>, Seq<char>)>,
    pattern: Seq<char>,
    insensitive: bool,
)
    requires
        forall|i: int| 0 <= i < fs.len() ==> !regex_finds(pattern, insensitive, #[trigger] fs[i].1),
    ensures
        matching(fs, pattern, insensitive).len() == 0,
    decreases fs.len(),
{
    if fs.len() > 0 {
        lemma_no_match_selects_nothing(fs.drop_last(), pattern, insensitive);
        assert(!regex_finds(pattern, insensitive, fs[fs.len() - 1].1));
    }
}

/// Seeded selection is reproducible: two runs with the same seed over corpora with
/// the same texts in the same order pick the same text.
pub proof fn lemma_same_seed_same_fortune(first: Seq<Fortune>, second: Seq<Fortune>, seed: u64)
    requires
        texts(first) == texts(second),
        first.len() > 0,
    ensures
        picked_text(texts(first), seed) == picked_text(texts(second), seed),
        picked_text(texts(first), seed) == first[pick_index(seed, first.len()) as int].text@,
{
}

} // verus!
