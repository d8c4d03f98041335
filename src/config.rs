use vstd::prelude::*;
use crate::seed::{digits_value, is_u64_text, not_integer_message, parse_u64, unsigned_part};
use crate::corpus::{match_lines, render_matches};
use crate::order::views;
use crate::parse::Fortune;
use crate::select::{
    fviews, invalid_pattern_message, matching, pick_fortune, picked_text, regex_compiles,
    select_matching, texts, Matcher, SelectError,
};

verus! {

/// What one run is asked to do: the input paths, the pattern of pattern mode,
/// and the seed of random mode.
pub struct Config {
    pub sources: Vec<String>,
    pub pattern: Option<Matcher>,
    pub seed: Option<u64>,
}

/// No pattern was given, or the one given compiles.
pub open spec fn pattern_ok(pattern: Option<&str>, insensitive: bool) -> bool {
    match pattern {
        Some(p) => regex_compiles(p@, insensitive),
        None => true,
    }
}

/// No seed was given, or the one given is an unsigned 64-bit integer.
pub open spec fn seed_ok(seed: Option<&str>) -> bool {
    match seed {
        Some(s) => is_u64_text(s@),
        None => true,
    }
}

/// Builds the configuration from the options as given. The pattern is checked
/// first, then the seed; nothing touches the file system.
pub fn build_config(
    sources: Vec<String>,
    pattern: Option<&str>,
    insensitive: bool,
    seed: Option<&str>,
) -> (r: Result<Config, String>)
    ensures
        !pattern_ok(pattern, insensitive) ==> r is Err && r->Err_0@ == invalid_pattern_message(
            pattern->Some_0@,
        ),
        pattern_ok(pattern, insensitive) && !seed_ok(seed) ==> r is Err && r->Err_0@
            == not_integer_message(seed->Some_0@),
        r is Ok <==> pattern_ok(pattern, insensitive) && seed_ok(seed),
        r is Ok ==> r->Ok_0.sources@ == sources@,
        r is Ok ==> (r->Ok_0.pattern is Some <==> pattern is Some),
        r is Ok && pattern is Some ==> r->Ok_0.pattern->Some_0.pattern_text() == pattern->Some_0@
            && r->Ok_0.pattern->Some_0.is_insensitive() == insensitive,
        r is Ok ==> (r->Ok_0.seed is Some <==> seed is Some),
        r is Ok && seed is Some ==> r->Ok_0.seed->Some_0 as int == digits_value(
            unsigned_part(seed->Some_0@),
        ),
{
    let matcher = match pattern {
        Some(p) => match Matcher::new(p, insensitive) {
            Ok(m) => Some(m),
            Err(e) => {
                return Err(e);
            },
        },
        None => None,
    };
    let value = match seed {
        Some(s) => match parse_u64(s) {
            Ok(v) => Some(v),
            Err(e) => {
                return Err(e);
            },
        },
        None => None,
    };
    Ok(Config { sources, pattern: matcher, seed: value })
}

/// The seed of random mode: the one configured, else the one drawn for this run.
pub open spec fn seed_in_use(seed: Option<u64>, drawn: u64) -> u64 {
    match seed {
        Some(s) => s,
        None => drawn,
    }
}

/// The output of one run, line by line. With a pattern: every matching fortune
/// under a line naming its source and followed by a `%` line, or nothing when none
/// matches. Without one: the text of the fortune that the seed picks, where the
/// configured seed wins over `drawn`.
pub fn select(corpus: &Vec<Fortune>, config: &Config, drawn: u64) -> (r: Result<Vec<String>, SelectError>)
    ensures
        config.pattern is Some ==> r is Ok && views(r->Ok_0@) == match_lines(
            matching(
                fviews(corpus@),
                config.pattern->Some_0.pattern_text(),
                config.pattern->Some_0.is_insensitive(),
            ),
        ),
        config.pattern is None ==> (r is Err <==> corpus.len() == 0),
        r is Err ==> r->Err_0 == SelectError::EmptyCorpus,
        config.pattern is None && r is Ok ==> views(r->Ok_0@) == seq![
            picked_text(texts(corpus@), seed_in_use(config.seed, drawn)),
        ],
{
    match &config.pattern {
        Some(m) => {
            let found = select_matching(corpus, m);
            Ok(render_matches(&found))
        },
        None => {
            let seed = match config.seed {
                Some(s) => s,
                None => drawn,
            };
            match pick_fortune(corpus, seed) {
                Ok(text) => {
                    let mut lines: Vec<String> = Vec::new();
                    lines.push(text);
                    assert(views(lines@) =~= seq![
                        picked_text(texts(corpus@), seed_in_use(config.seed, drawn)),
                    ]);
                    Ok(lines)
                },
                Err(e) => Err(e),
            }
        },
    }
}

} // verus!
