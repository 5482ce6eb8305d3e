use gremp::search;
use gremp::search_case_insensitive;

#[test]
fn it_searches_case_sensitive() {
    let pattern = "duct";
    let contents = "Rust:\nSafe, fast, productive.\nPick three.\nDuct tape.";

    assert_eq!(vec![(2, "Safe, fast, productive.")], search(pattern, contents));
}

#[test]
fn it_searches_case_insensitive() {
    let pattern = "rUsT";
    let contents = "Rust:\nSafe, fast, productive.\nPick three.\nTrust me.";

    assert_eq!(
        vec![(1, "Rust:"), (4, "Trust me.")],
        search_case_insensitive(pattern, contents)
    );
}

#[test]
fn empty_contents_give_empty_results() {
    assert_eq!(search("pattern", ""), vec![]);
    assert_eq!(search_case_insensitive("pattern", ""), vec![]);
}

#[test]
fn empty_pattern_returns_every_line() {
    let contents = "alpha\nbeta\ngamma";
    assert_eq!(
        vec![(1, "alpha"), (2, "beta"), (3, "gamma")],
        search("", contents)
    );
    assert_eq!(
        vec![(1, "alpha"), (2, "beta"), (3, "gamma")],
        search_case_insensitive("", contents)
    );
}

#[test]
fn pattern_longer_than_any_line_matches_nothing() {
    let contents = "ab\ncd";
    assert_eq!(search("abcde", contents), vec![]);
    assert_eq!(search_case_insensitive("abcde", contents), vec![]);
}

#[test]
fn pattern_with_newline_never_matches() {
    let contents = "ab\nabc";
    assert_eq!(search("b\na", contents), vec![]);
    assert_eq!(search_case_insensitive("b\na", contents), vec![]);
}

#[test]
fn case_insensitive_result_is_superset() {
    let pattern = "Rust";
    let contents = "Rust:\ntrust me.\nnothing here\nRustacean";
    let sensitive = search(pattern, contents);
    let insensitive = search_case_insensitive(pattern, contents);
    assert_eq!(vec![(1, "Rust:"), (4, "Rustacean")], sensitive);
    assert_eq!(vec![(1, "Rust:"), (2, "trust me."), (4, "Rustacean")], insensitive);
    for hit in &sensitive {
        assert!(insensitive.contains(hit));
    }
}

#[test]
fn line_numbers_are_in_range_and_increasing() {
    let contents = "ab\ncd\nab\nef\nab";
    let result = search("ab", contents);
    assert_eq!(vec![(1, "ab"), (3, "ab"), (5, "ab")], result);
    let line_count = contents.lines().count();
    let mut previous = 0;
    for (number, _) in result {
        assert!(1 <= number && number <= line_count);
        assert!(number > previous);
        previous = number;
    }
}

#[test]
fn repeated_calls_agree() {
    let pattern = "prod";
    let contents = "Rust:\nSafe, fast, productive.\nPick three.";
    assert_eq!(search(pattern, contents), search(pattern, contents));
    assert_eq!(
        search_case_insensitive(pattern, contents),
        search_case_insensitive(pattern, contents)
    );
}

#[test]
fn unicode_text_is_matched_by_character() {
    let contents = "héllo wörld\nplain line";
    assert_eq!(vec![(1, "héllo wörld")], search("éllo", contents));
    assert_eq!(vec![(1, "héllo wörld")], search_case_insensitive("HÉLLO", contents));
}
