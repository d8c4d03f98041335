use fortuner::config::{build_config, select};
use fortuner::corpus::{build_corpus, render_matches};
use fortuner::parse::{parse_fortunes, Fortune};
use fortuner::resolve::{find_files, keep_flagged, resolve, FindError, Probe};
use fortuner::seed::parse_u64;
use fortuner::select::{next_random, pick_fortune, select_matching, Matcher, SelectError};
use std::path::Path;

/// The fixture directory of the original tests: four fortune files.
fn inputs_dir() -> Probe {
    Probe::Dir(vec![
        "./tests/inputs/quotes".to_string(),
        "./tests/inputs/ascii-art".to_string(),
        "./tests/inputs/literature".to_string(),
        "./tests/inputs/jokes".to_string(),
    ])
}

/// Resolves the fixture paths as the file system of the original tests shows them.
fn find_in_fixture(paths: &[String]) -> Result<Vec<String>, FindError> {
    let mut probes = Vec::new();
    for p in paths {
        probes.push(match p.as_str() {
            "./tests/inputs" => inputs_dir(),
            "./tests/inputs/jokes" | "./tests/inputs/ascii-art" | "./tests/inputs/quotes"
            | "./tests/inputs/literature" => Probe::File,
            _ => Probe::Missing,
        });
    }
    resolve(paths, &probes)
}

fn fortune(source: &str, text: &str) -> Fortune {
    Fortune { source: source.to_string(), text: text.to_string() }
}

#[test]
fn test_parse_u64() {
    let res = parse_u64("a");
    assert!(res.is_err());
    assert_eq!(res.unwrap_err().to_string(), "\"a\" not a valid integer");

    let res = parse_u64("0");
    assert!(res.is_ok());
    assert_eq!(res.unwrap(), 0);

    let res = parse_u64("4");
    assert!(res.is_ok());
    assert_eq!(res.unwrap(), 4);
}

#[test]
fn test_find_files() {
    // Verify that the function finds a file known to exist
    let res = find_in_fixture(&["./tests/inputs/jokes".to_string()]);
    assert!(res.is_ok());

    let files = res.unwrap();
    assert_eq!(files.len(), 1);
    assert_eq!(files.get(0).unwrap(), "./tests/inputs/jokes");

    // Fails to find a bad file
    let res = find_files(&["/path/does/not/exist".to_string()]);
    assert!(res.is_err());

    // Finds all the input files
    let res = find_in_fixture(&["./tests/inputs".to_string()]);
    assert!(res.is_ok());

    // Check number and order of files
    let files = res.unwrap();
    assert_eq!(files.len(), 4);
    let first = files.get(0).unwrap().to_string();
    assert!(first.contains("ascii-art"));
    let last = files.last().unwrap().to_string();
    assert!(last.contains("quotes"));

    // Test for multiple sources, path must be unique and sorted
    let res = find_in_fixture(&[
        "./tests/inputs/jokes".to_string(),
        "./tests/inputs/ascii-art".to_string(),
        "./tests/inputs/jokes".to_string(),
    ]);
    assert!(res.is_ok());
    let files = res.unwrap();
    assert_eq!(files.len(), 2);
    if let Some(filename) = Path::new(files.first().unwrap()).file_name() {
        assert_eq!(filename.to_string_lossy(), "ascii-art".to_string())
    }
    if let Some(filename) = Path::new(files.last().unwrap()).file_name() {
        assert_eq!(filename.to_string_lossy(), "jokes".to_string())
    }
}

#[test]
fn parse_u64_sign_and_limits() {
    assert_eq!(parse_u64("+5").unwrap(), 5);
    assert_eq!(parse_u64("18446744073709551615").unwrap(), u64::MAX);
    assert!(parse_u64("18446744073709551616").is_err());
    assert!(parse_u64("").is_err());
    assert!(parse_u64("+").is_err());
    assert!(parse_u64("-1").is_err());
    assert_eq!(parse_u64("12x").unwrap_err(), "\"12x\" not a valid integer");
}

#[test]
fn parse_three_records() {
    let r = parse_fortunes("f", "A\n%\nB\n%\nC");
    let texts: Vec<&str> = r.iter().map(|f| f.text.as_str()).collect();
    assert_eq!(texts, vec!["A", "B", "C"]);
    assert!(r.iter().all(|f| f.source == "f"));
}

#[test]
fn parse_without_delimiter() {
    let r = parse_fortunes("f", "  first line\n  second line \n\n");
    assert_eq!(r.len(), 1);
    assert_eq!(r[0].text, "first line\n  second line");
    assert_eq!(parse_fortunes("f", " \n\t\n").len(), 0);
    assert_eq!(parse_fortunes("f", "").len(), 0);
}

#[test]
fn parse_percent_inside_text_and_empty_records() {
    let r = parse_fortunes("f", "100% sure\n%\n%\n  \n%\nnext %\n%");
    let texts: Vec<&str> = r.iter().map(|f| f.text.as_str()).collect();
    assert_eq!(texts, vec!["100% sure", "next %"]);
}

#[test]
fn resolve_single_file() {
    let r = resolve(&["a/x".to_string()], &vec![Probe::File]).unwrap();
    assert_eq!(r, vec!["a/x".to_string()]);
}

#[test]
fn resolve_directory_named_twice() {
    let kids = vec!["d/b".to_string(), "d/a".to_string(), "d/c".to_string()];
    let r = resolve(
        &["d".to_string(), "d".to_string()],
        &vec![Probe::Dir(kids.clone()), Probe::Dir(kids)],
    )
    .unwrap();
    assert_eq!(r, vec!["d/a".to_string(), "d/b".to_string(), "d/c".to_string()]);
}

#[test]
fn resolve_missing_anywhere() {
    let paths = ["a".to_string(), "gone".to_string(), "also_gone".to_string()];
    let probes = vec![Probe::File, Probe::Missing, Probe::Missing];
    match resolve(&paths, &probes) {
        Err(FindError::PathNotFound(p)) => assert_eq!(p, "gone"),
        _ => panic!("expected a missing path"),
    }
    let probes = vec![Probe::Missing, Probe::File, Probe::File];
    assert!(matches!(resolve(&paths, &probes), Err(FindError::PathNotFound(p)) if p == "a"));
    assert_eq!(FindError::PathNotFound("x/y".to_string()).message(), "x/y does not exist");
}

#[test]
fn resolve_repeated_directories() {
    let paths_aba = ["A".to_string(), "B".to_string(), "A".to_string()];
    let probes_aba = vec![
        Probe::Dir(vec!["A/one".to_string()]),
        Probe::Dir(vec!["B/two".to_string()]),
        Probe::Dir(vec!["A/one".to_string()]),
    ];
    let r1 = resolve(&paths_aba, &probes_aba).unwrap();
    let r2 = resolve(&paths_aba[..2], &probes_aba[..2].to_vec()).unwrap();
    assert_eq!(r1, r2);
    assert_eq!(r1, vec!["A/one".to_string(), "B/two".to_string()]);
    assert_eq!(
        resolve(&["x".to_string()], &vec![Probe::Other]).unwrap(),
        Vec::<String>::new()
    );
}

#[test]
fn find_files_on_disk() {
    let one = find_files(&["./src/parse.rs".to_string()]).unwrap();
    assert_eq!(one, vec!["./src/parse.rs".to_string()]);
    let src = "./src".to_string();
    let tests = "./tests".to_string();
    let r1 = find_files(&[src.clone(), tests.clone(), src.clone()]).unwrap();
    let r2 = find_files(&[src.clone(), tests.clone()]).unwrap();
    assert_eq!(r1, r2);
    assert!(r1.contains(&"./src/lib.rs".to_string()));
    assert!(r1.contains(&"./tests/fortune_tests.rs".to_string()));
    let mut sorted = r1.clone();
    sorted.sort();
    sorted.dedup();
    assert_eq!(sorted, r1);
    // Subdirectories of a named directory are not entered.
    let top = find_files(&[".".to_string()]).unwrap();
    assert!(top.iter().all(|p| !p.starts_with("./src/")));
    let missing = find_files(&[src.clone(), "./no/such/path".to_string(), tests]);
    match missing {
        Err(e) => assert_eq!(e.message(), "./no/such/path does not exist"),
        Ok(_) => panic!("expected a missing path"),
    }
}

#[test]
fn seeded_pick_is_reproducible() {
    let corpus = vec![fortune("s", "one"), fortune("s", "two"), fortune("t", "three")];
    let a = pick_fortune(&corpus, 42).unwrap();
    let b = pick_fortune(&corpus, 42).unwrap();
    assert_eq!(a, b);
    assert_eq!(next_random(0), 0xe220a8397b1dcdaf);
    let expected = ["one", "two", "three"][(next_random(7) % 3) as usize];
    assert_eq!(pick_fortune(&corpus, 7).unwrap(), expected);
}

#[test]
fn pick_on_empty_corpus_fails() {
    assert_eq!(pick_fortune(&vec![], 1), Err(SelectError::EmptyCorpus));
    assert_eq!(SelectError::EmptyCorpus.message(), "No fortunes found");
}

#[test]
fn pattern_without_match_selects_nothing() {
    let corpus = vec![fortune("s", "Hello"), fortune("s", "world")];
    let m = match Matcher::new("zzz", false) {
        Ok(m) => m,
        Err(e) => panic!("{}", e),
    };
    assert!(select_matching(&corpus, &m).is_empty());
}

#[test]
fn pattern_case_sensitivity() {
    let corpus = vec![fortune("s", "Hello")];
    let exact = match Matcher::new("hello", false) {
        Ok(m) => m,
        Err(e) => panic!("{}", e),
    };
    assert_eq!(select_matching(&corpus, &exact).len(), 0);
    let folded = match Matcher::new("hello", true) {
        Ok(m) => m,
        Err(e) => panic!("{}", e),
    };
    let found = select_matching(&corpus, &folded);
    assert_eq!(found.len(), 1);
    assert_eq!(found[0].text, "Hello");
    assert_eq!(found[0].source, "s");
}

#[test]
fn invalid_pattern_is_reported() {
    match Matcher::new("(", false) {
        Err(e) => assert_eq!(e, "Invalid pattern \"(\""),
        Ok(_) => panic!("expected an invalid pattern"),
    }
}

#[test]
fn config_checks_pattern_then_seed() {
    let srcs = vec!["x".to_string()];
    match build_config(srcs.clone(), Some("("), false, Some("a")) {
        Err(e) => assert_eq!(e, "Invalid pattern \"(\""),
        Ok(_) => panic!("expected an error"),
    }
    match build_config(srcs.clone(), Some("o"), false, Some("a")) {
        Err(e) => assert_eq!(e, "\"a\" not a valid integer"),
        Ok(_) => panic!("expected an error"),
    }
    match build_config(srcs.clone(), None, true, Some("9")) {
        Ok(c) => {
            assert_eq!(c.sources, srcs);
            assert_eq!(c.seed, Some(9));
            assert!(c.pattern.is_none());
        },
        Err(e) => panic!("{}", e),
    }
}

#[test]
fn corpus_keeps_file_order_and_repeats() {
    let sources = vec!["b".to_string(), "a".to_string()];
    let contents = vec!["same\n%\nx".to_string(), "same".to_string()];
    let c = build_corpus(&sources, &contents);
    let pairs: Vec<(&str, &str)> = c.iter().map(|f| (f.source.as_str(), f.text.as_str())).collect();
    assert_eq!(pairs, vec![("b", "same"), ("b", "x"), ("a", "same")]);
}

#[test]
fn pattern_output_lines() {
    let found = vec![fortune("jokes", "ha\nha"), fortune("quotes", "q")];
    assert_eq!(render_matches(&found), vec!["(jokes)", "ha\nha", "%", "(quotes)", "q", "%"]);
}

#[test]
fn parse_crlf_delimiters() {
    let r = parse_fortunes("f", "A\r\n%\r\nB\r\n% \r\nC\r\n");
    let texts: Vec<&str> = r.iter().map(|f| f.text.as_str()).collect();
    assert_eq!(texts, vec!["A", "B\r\n% \r\nC"]);
}

#[test]
fn find_files_without_paths() {
    assert_eq!(find_files(&[]).unwrap(), Vec::<String>::new());
}

#[test]
fn keep_flagged_keeps_answered_entries_in_order() {
    let entries = vec!["d/c".to_string(), "d/sub".to_string(), "d/a".to_string()];
    let r = keep_flagged(&entries, &vec![true, false, true]);
    assert_eq!(r, vec!["d/c".to_string(), "d/a".to_string()]);
    assert!(keep_flagged(&entries, &vec![false, false, false]).is_empty());
}

#[test]
fn select_pattern_mode() {
    let corpus = vec![fortune("p", "Hello"), fortune("q", "bye")];
    let folded = build_config(vec!["p".to_string()], Some("hello"), true, None).ok().unwrap();
    assert_eq!(select(&corpus, &folded, 3).unwrap(), vec!["(p)", "Hello", "%"]);
    let exact = build_config(vec!["p".to_string()], Some("hello"), false, None).ok().unwrap();
    assert!(select(&corpus, &exact, 3).unwrap().is_empty());
    assert!(select(&vec![], &exact, 3).unwrap().is_empty());
}

#[test]
fn select_random_mode() {
    let corpus = vec![fortune("s", "one"), fortune("s", "two"), fortune("t", "three")];
    let seeded = build_config(vec!["s".to_string()], None, false, Some("7")).ok().unwrap();
    let expected = ["one", "two", "three"][(next_random(7) % 3) as usize];
    assert_eq!(select(&corpus, &seeded, 100).unwrap(), vec![expected]);
    let unseeded = build_config(vec!["s".to_string()], None, false, None).ok().unwrap();
    let drawn = ["one", "two", "three"][(next_random(100) % 3) as usize];
    assert_eq!(select(&corpus, &unseeded, 100).unwrap(), vec![drawn]);
    assert_eq!(select(&vec![], &unseeded, 100), Err(SelectError::EmptyCorpus));
}

#[test]
fn config_pattern_case_flag() {
    let on = build_config(vec!["s".to_string()], Some("hello"), true, None).ok().unwrap();
    let m = on.pattern.as_ref().unwrap();
    assert!(m.is_match("hello") && m.is_match("Hello"));
    let off = build_config(vec!["s".to_string()], Some("hello"), false, None).ok().unwrap();
    let m = off.pattern.as_ref().unwrap();
    assert!(m.is_match("hello") && !m.is_match("Hello"));
}
