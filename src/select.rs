use vstd::prelude::*;
use vstd::string::StringExecFns;
use vstd::wrapping::u64_specs::{wrapping_add, wrapping_mul};
use crate::parse::Fortune;

verus! {

#[verifier::external_type_specification]
#[verifier::external_body]
pub struct ExRegex(regex::Regex);

#[verifier::external_type_specification]
#[verifier::external_body]
pub struct ExRegexError(regex::Error);

/// Whether `pattern` compiles as a regular expression, with case folding as asked.
pub uninterp spec fn regex_compiles(pattern: Seq<char>, insensitive: bool) -> bool;

/// Whether the compiled `pattern` matches somewhere in `text`.
pub uninterp spec fn regex_finds(pattern: Seq<char>, insensitive: bool, text: Seq<char>) -> bool;

/// Relies on regex::RegexBuilder (`new`, `case_insensitive`, `build`): compiling
/// succeeds or fails on the pattern and the flag alone.
#[verifier::external_body]
fn compile_regex(pattern: &str, insensitive: bool) -> (r: Result<regex::Regex, regex::Error>)
    ensures
        r is Ok <==> regex_compiles(pattern@, insensitive),
{
    regex::RegexBuilder::new(pattern).case_insensitive(insensitive).build()
}

/// A compiled search pattern, with the text and flag it was compiled from.
pub struct Matcher {
    pattern: String,
    insensitive: bool,
    re: regex::Regex,
}

/// The message for a pattern that does not compile.
pub open spec fn invalid_pattern_message(pattern: Seq<char>) -> Seq<char> {
    "Invalid pattern \""@ + pattern + seq!['"']
}

impl Matcher {
    /// The text that the pattern was compiled from.
    pub closed spec fn pattern_text(&self) -> Seq<char> {
        self.pattern@
    }

    /// Whether the pattern ignores case.
    pub closed spec fn is_insensitive(&self) -> bool {
        self.insensitive
    }

    /// Compiles `pattern`, ignoring case when `insensitive` is set.
    pub fn new(pattern: &str, insensitive: bool) -> (r: Result<Matcher, String>)
        ensures
            r is Ok <==> regex_compiles(pattern@, insensitive),
            r is Ok ==> r->Ok_0.pattern_text() == pattern@ && r->Ok_0.is_insensitive()
                == insensitive,
            r is Err ==> r->Err_0@ == invalid_pattern_message(pattern@),
    {
        match compile_regex(pattern, insensitive) {
            Ok(re) => Ok(Matcher { pattern: String::from_str(pattern), insensitive, re }),
            Err(_) => {
                let m = String::from_str("Invalid pattern \"").concat(pattern).concat("\"");
                proof {
                    reveal_strlit("\"");
                }
                assert(m@ =~= invalid_pattern_message(pattern@));
                Err(m)
            },
        }
    }

    /// Whether the pattern matches somewhere in `text`.
    pub fn is_match(&self, text: &str) -> (r: bool)
        ensures
            r == regex_finds(self.pattern_text(), self.is_insensitive(), text@),
    {
        regex_is_match(self, text)
    }
}

/// Relies on regex::Regex::is_match: whether the regex, compiled from the matcher's
/// pattern and flag, matches somewhere in `text`.
#[verifier::external_body]
fn regex_is_match(m: &Matcher, text: &str) -> (r: bool)
    ensures
        r == regex_finds(m.pattern_text(), m.is_insensitive(), text@),
{
    m.re.is_match(text)
}

/// The source and the text of a fortune.
pub open spec fn fview(f: Fortune) -> (Seq<char>, Seq<char>) {
    (f.source@, f.text@)
}

pub open spec fn fviews(fs: Seq<Fortune>) -> Seq<(Seq<char>, Seq<char>)> {
    fs.map_values(|f: Fortune| fview(f))
}

/// The fortunes whose text the pattern matches, in corpus order.
pub open spec fn matching(
    fs: Seq<(Seq<char>, Seq<char>)>,
    pattern: Seq<char>,
    insensitive: bool,
) -> Seq<(Seq<char>, Seq<char>)>
    decreases fs.len(),
{
    if fs.len() == 0 {
        seq![]
    } else {
        let r = matching(fs.drop_last(), pattern, insensitive);
        if regex_finds(pattern, insensitive, fs.last().1) {
            r.push(fs.last())
        } else {
            r
        }
    }
}

/// A copy of a fortune.
pub fn copy_fortune(f: &Fortune) -> (r: Fortune)
    ensures
        fview(r) == fview(*f),
{
    Fortune { source: f.source.clone(), text: f.text.clone() }
}

/// Pattern mode: every fortune whose text the pattern matches, in corpus order, each
/// with its source. An empty result means that nothing matched; it is no error.
pub fn select_matching(corpus: &Vec<Fortune>, m: &Matcher) -> (r: Vec<Fortune>)
    ensures
        fviews(r@) == matching(fviews(corpus@), m.pattern_text(), m.is_insensitive()),
{
    let ghost all = fviews(corpus@);
    let mut r: Vec<Fortune> = Vec::new();
    let mut i: usize = 0;
    assert(all.take(0) =~= seq![]);
    assert(fviews(r@) =~= seq![]);
    while i < corpus.len()
        invariant
            i <= corpus.len(),
            all == fviews(corpus@),
            fviews(r@) == matching(all.take(i as int), m.pattern_text(), m.is_insensitive()),
        decreases corpus.len() - i,
    {
        assert(all.take(i + 1).drop_last() =~= all.take(i as int));
        let ghost before = fviews(r@);
        if m.is_match(corpus[i].text.as_str()) {
            let f = copy_fortune(&corpus[i]);
            r.push(f);
            assert(fviews(r@) =~= before.push(all[i as int]));
        }
        i = i + 1;
    }
    assert(all.take(corpus.len() as int) =~= all);
    r
}

/// The error of random mode. A corpus without fortunes cannot be picked from. of a corpus without fortunes.
#[derive(Debug, Clone, Copy, PartialEq, Eq)]
pub enum SelectError {
    EmptyCorpus,
}

impl SelectError {
    pub fn message(&self) -> (r: String)
        ensures
            r@ == "No fortunes found"@,
    {
        String::from_str("No fortunes found")
    }
}

/// The SplitMix64 output for `seed`: the generator that seeded selection uses.
pub open spec fn mix64(seed: u64) -> u64 {
    let z = wrapping_add(seed, 0x9e3779b97f4a7c15u64);
    let z = wrapping_mul(z ^ (z >> 30u64), 0xbf58476d1ce4e5b9u64);
    let z = wrapping_mul(z ^ (z >> 27u64), 0x94d049bb133111ebu64);
    z ^ (z >> 31u64)
}

/// The index that `seed` picks among `n` fortunes.
pub open spec fn pick_index(seed: u64, n: nat) -> nat
    recommends
        n > 0,
{
    (mix64(seed) as nat) % n
}

/// SplitMix64 on `seed`.
pub fn next_random(seed: u64) -> (r: u64)
    ensures
        r == mix64(seed),
{
    let z = seed.wrapping_add(0x9e3779b97f4a7c15u64);
    let z = (z ^ (z >> 30u64)).wrapping_mul(0xbf58476d1ce4e5b9u64);
    let z = (z ^ (z >> 27u64)).wrapping_mul(0x94d049bb133111ebu64);
    z ^ (z >> 31u64)
}

/// The texts of the fortunes, in corpus order.
pub open spec fn texts(fs: Seq<Fortune>) -> Seq<Seq<char>> {
    fs.map_values(|f: Fortune| f.text@)
}

/// The text that `seed` picks among `ts`.
pub open spec fn picked_text(ts: Seq<Seq<char>>, seed: u64) -> Seq<char> {
    ts[pick_index(seed, ts.len()) as int]
}

/// Random mode: the text of the fortune that `seed` picks, with no source.
///
/// The same seed and the same corpus give the same fortune every time.
pub fn pick_fortune(corpus: &Vec<Fortune>, seed: u64) -> (r: Result<String, SelectError>)
    ensures
        r is Err <==> corpus.len() == 0,
        r is Err ==> r->Err_0 == SelectError::EmptyCorpus,
        r is Ok ==> r->Ok_0@ == corpus@[pick_index(seed, corpus.len() as nat) as int].text@,
        r is Ok ==> r->Ok_0@ == picked_text(texts(corpus@), seed),
{
    if corpus.len() == 0 {
        return Err(SelectError::EmptyCorpus);
    }
    let i = (next_random(seed) % (corpus.len() as u64)) as usize;
    Ok(corpus[i].text.clone())
}

} // verus!
