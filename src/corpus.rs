use vstd::prelude::*;
use vstd::string::StringExecFns;
use crate::order::views;
use crate::parse::{parse_fortunes, records, Fortune};
use crate::select::{fviews, fview};

verus! {

/// Each text paired with `source`.
pub open spec fn labeled(source: Seq<char>, texts: Seq<Seq<char>>) -> Seq<(Seq<char>, Seq<char>)> {
    texts.map_values(|t: Seq<char>| (source, t))
}

/// The corpus of the files with these names and contents: file after file, and
/// within a file the fortunes in the order they stand.
pub open spec fn corpus_of(sources: Seq<Seq<char>>, contents: Seq<Seq<char>>) -> Seq<
    (Seq<char>, Seq<char>),
>
    decreases contents.len(),
{
    if contents.len() == 0 {
        seq![]
    } else {
        corpus_of(sources, contents.drop_last()) + labeled(
            sources[contents.len() - 1],
            records(contents.last()),
        )
    }
}

/// Parses each file's contents and puts the fortunes together in file order.
/// Equal texts from different files are all kept.
pub fn build_corpus(sources: &[String], contents: &[String]) -> (r: Vec<Fortune>)
    requires
        sources@.len() == contents@.len(),
    ensures
        fviews(r@) == corpus_of(views(sources@), views(contents@)),
{
    let ghost ss = views(sources@);
    let ghost cs = views(contents@);
    let mut r: Vec<Fortune> = Vec::new();
    let mut i: usize = 0;
    assert(fviews(r@) =~= seq![]);
    while i < contents.len()
        invariant
            i <= contents@.len() == sources@.len(),
            ss == views(sources@),
            cs == views(contents@),
            fviews(r@) == corpus_of(ss, cs.take(i as int)),
        decreases contents.len() - i,
    {
        let mut parsed = parse_fortunes(sources[i].as_str(), contents[i].as_str());
        let ghost before = fviews(r@);
        let ghost added = fviews(parsed@);
        assert(added =~= labeled(ss[i as int], records(cs[i as int])));
        assert(cs.take(i + 1).drop_last() =~= cs.take(i as int));
        r.append(&mut parsed);
        assert(fviews(r@) =~= before + added);
        i = i + 1;
    }
    assert(cs.take(contents.len() as int) =~= cs);
    r
}

/// The lines that show the matching fortunes: for each, its source in parentheses,
/// its text, and a `%` line.
pub open spec fn match_lines(fs: Seq<(Seq<char>, Seq<char>)>) -> Seq<Seq<char>>
    decreases fs.len(),
{
    if fs.len() == 0 {
        seq![]
    } else {
        match_lines(fs.drop_last()) + seq![
            seq!['('] + fs.last().0 + seq![')'],
            fs.last().1,
            seq!['%'],
        ]
    }
}

/// The output of pattern mode, line by line.
pub fn render_matches(found: &Vec<Fortune>) -> (r: Vec<String>)
    ensures
        views(r@) == match_lines(fviews(found@)),
{
    let ghost all = fviews(found@);
    let mut r: Vec<String> = Vec::new();
    let mut i: usize = 0;
    assert(views(r@) =~= seq![]);
    assert(all.take(0) =~= seq![]);
    while i < found.len()
        invariant
            i <= found.len(),
            all == fviews(found@),
            views(r@) == match_lines(all.take(i as int)),
        decreases found.len() - i,
    {
        let ghost before = views(r@);
        assert(all.take(i + 1).drop_last() =~= all.take(i as int));
        let f = &found[i];
        let header = String::from_str("(").concat(f.source.as_str()).concat(")");
        r.push(header);
        r.push(f.text.clone());
        r.push(String::from_str("%"));
        proof {
            reveal_strlit("(");
            reveal_strlit(")");
            reveal_strlit("%");
            assert("("@ =~= seq!['(']);
            assert(")"@ =~= seq![')']);
            assert("%"@ =~= seq!['%']);
            assert(all[i as int] == fview(found@[i as int]));
            assert(all.take(i + 1).last() == all[i as int]);
        }
        assert(views(r@) =~= match_lines(all.take(i + 1)));
        i = i + 1;
    }
    assert(all.take(found.len() as int) =~= all);
    r
}

} // verus!
