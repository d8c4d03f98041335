use vstd::prelude::*;
use crate::text::chars_of;

verus! {

/// `a` comes strictly before `b` in lexicographic order of characters.
pub open spec fn lex_lt(a: Seq<char>, b: Seq<char>) -> bool
    decreases a.len(),
{
    if a.len() == 0 {
        b.len() > 0
    } else if b.len() == 0 {
        false
    } else if a[0] != b[0] {
        a[0] < b[0]
    } else {
        lex_lt(a.drop_first(), b.drop_first())
    }
}

/// The character sequences that the strings of `v` hold.
pub open spec fn views(v: Seq<String>) -> Seq<Seq<char>> {
    v.map_values(|s: String| s@)
}

/// Each element comes strictly before every later one: sorted, without repeats.
pub open spec fn strictly_sorted(s: Seq<Seq<char>>) -> bool {
    forall|i: int, j: int| 0 <= i < j < s.len() ==> lex_lt(#[trigger] s[i], #[trigger] s[j])
}

pub proof fn lemma_lex_irreflexive(a: Seq<char>)
    ensures
        !lex_lt(a, a),
    decreases a.len(),
{
    if a.len() > 0 {
        lemma_lex_irreflexive(a.drop_first());
    }
}

pub proof fn lemma_lex_total(a: Seq<char>, b: Seq<char>)
    ensures
        a == b || lex_lt(a, b) || lex_lt(b, a),
    decreases a.len(),
{
    if a.len() > 0 && b.len() > 0 && a[0] == b[0] {
        lemma_lex_total(a.drop_first(), b.drop_first());
        if a.drop_first() == b.drop_first() {
            assert(a =~= seq![a[0]] + a.drop_first());
            assert(b =~= seq![b[0]] + b.drop_first());
        }
    } else if a.len() == 0 && b.len() == 0 {
        assert(a =~= b);
    }
}

pub proof fn lemma_lex_transitive(a: Seq<char>, b: Seq<char>, c: Seq<char>)
    requires
        lex_lt(a, b),
        lex_lt(b, c),
    ensures
        lex_lt(a, c),
    decreases a.len(),
{
    if a.len() > 0 && b.len() > 0 && c.len() > 0 && a[0] == b[0] && b[0] == c[0] {
        lemma_lex_transitive(a.drop_first(), b.drop_first(), c.drop_first());
    }
}

/// Whether `a` comes strictly before `b` in lexicographic order of characters.
pub fn str_lt(a: &str, b: &str) -> (r: bool)
    ensures
        r == lex_lt(a@, b@),
{
    let x = chars_of(a);
    let y = chars_of(b);
    let mut i: usize = 0;
    assert(a@.skip(0) =~= a@);
    assert(b@.skip(0) =~= b@);
    while i < x.len() && i < y.len() && x[i] == y[i]
        invariant
            i <= x.len(),
            i <= y.len(),
            x@ == a@,
            y@ == b@,
            lex_lt(a@, b@) == lex_lt(a@.skip(i as int), b@.skip(i as int)),
        decreases x.len() - i,
    {
        assert(a@.skip(i as int).drop_first() =~= a@.skip(i + 1));
        assert(b@.skip(i as int).drop_first() =~= b@.skip(i + 1));
        i = i + 1;
    }
    if i == x.len() {
        i < y.len()
    } else if i == y.len() {
        false
    } else {
        x[i] < y[i]
    }
}

/// Puts `x` into the sorted vector `r` at its place, unless `r` holds it already.
pub fn insert_sorted(r: &mut Vec<String>, x: String)
    requires
        strictly_sorted(views(old(r)@)),
    ensures
        strictly_sorted(views(final(r)@)),
        views(final(r)@).to_set() == views(old(r)@).to_set().insert(x@),
{
    let ghost before = views(r@);
    let mut j: usize = 0;
    while j < r.len() && str_lt(r[j].as_str(), x.as_str())
        invariant
            j <= r.len(),
            r@ == old(r)@,
            before == views(r@),
            strictly_sorted(before),
            forall|k: int| 0 <= k < j ==> lex_lt(#[trigger] before[k], x@),
        decreases r.len() - j,
    {
        j = j + 1;
    }
    if j < r.len() && str_eq(r[j].as_str(), x.as_str()) {
        assert(before.to_set() =~= before.to_set().insert(x@)) by {
            assert(before[j as int] == x@);
        }
        return;
    }
    proof {
        if j < r.len() {
            lemma_lex_total(before[j as int], x@);
            assert(lex_lt(x@, before[j as int]));
            assert forall|k: int| j < k < before.len() implies lex_lt(x@, #[trigger] before[k]) by {
                lemma_lex_transitive(x@, before[j as int], before[k]);
            }
        }
    }
    let ghost xv = x@;
    r.insert(j, x);
    let ghost after = views(r@);
    assert(after =~= before.insert(j as int, xv));
    assert(strictly_sorted(after)) by {
        assert forall|a: int, b: int| 0 <= a < b < after.len() implies lex_lt(
            #[trigger] after[a],
            #[trigger] after[b],
        ) by {
            if b < j {
            } else if b == j {
            } else if a < j {
                assert(lex_lt(before[a], xv));
                lemma_lex_transitive(before[a], xv, before[b - 1]);
            } else if a == j {
            } else {
            }
        }
    }
    assert(after.to_set() =~= before.to_set().insert(xv)) by {
        assert forall|s: Seq<char>| after.contains(s) implies before.contains(s) || s == xv by {
            let k = choose|k: int| 0 <= k < after.len() && after[k] == s;
            if k < j {
                assert(before[k] == s);
            } else if k > j {
                assert(before[k - 1] == s);
            }
        }
        assert forall|s: Seq<char>| before.contains(s) implies after.contains(s) by {
            let k = choose|k: int| 0 <= k < before.len() && before[k] == s;
            if k < j {
                assert(after[k] == s);
            } else {
                assert(after[k + 1] == s);
            }
        }
        assert(after[j as int] == xv);
    }
}

/// Whether `a` and `b` hold the same characters.
pub fn str_eq(a: &str, b: &str) -> (r: bool)
    ensures
        r == (a@ == b@),
{
    proof {
        lemma_lex_total(a@, b@);
        lemma_lex_irreflexive(a@);
    }
    !str_lt(a, b) && !str_lt(b, a)
}

} // verus!
