//! Tests of the search kernel: sensitive and insensitive substring search
//! over the lines of a text.

use minigrep::find_first_insensitive_match;
use minigrep::find_first_sensitive_match;
use minigrep::search;
use minigrep::search_case_insensitive;

#[test]
fn case_sensitive() {
    let query = "duct";
    let contents = "\
Rust:
safe, fast, productive.
Pick three.
Duct tape.";

    assert_eq!(vec!["safe, fast, productive."], search(query, contents));
}

#[test]
fn case_insensitive() {
    let query = "rUsT";
    let contents = "\
Rust:
safe, fast, productive.
Pick three.
Trust me.";

    assert_eq!(
        vec!["Rust:", "Trust me."],
        search_case_insensitive(query, contents)
    );
}

#[test]
fn first_insensitive_match() {
    let query = "rUst";
    let contents = "\
  Rust:
  safe, fast, productive.
  Pick three.
  Duct tape.";

    assert_eq!(vec!["Rust:"], find_first_insensitive_match(query, contents))
}

#[test]
fn first_sensitive_match() {
    let query = "safe";
    let contents = "\
Rust:
safe, fast, productive.
Pick three.
Duct tape.";

    assert_eq!("safe", find_first_sensitive_match(query, contents));
}

#[test]
fn sensitive_is_exact_about_case() {
    let contents = "Rust\nrust\nRUSTY";
    assert_eq!(vec!["Rust"], search("Rust", contents));
}

#[test]
fn insensitive_folds_both_sides() {
    let contents = "Rust\nrust\nRUSTY";
    assert_eq!(
        vec!["Rust", "rust", "RUSTY"],
        search_case_insensitive("Rust", contents)
    );
}

#[test]
fn empty_query_matches_every_line() {
    let contents = "one\ntwo\nthree";
    assert_eq!(vec!["one", "two", "three"], search("", contents));
    assert_eq!(vec!["one", "two", "three"], search_case_insensitive("", contents));
}

#[test]
fn empty_text_has_no_lines() {
    assert_eq!(Vec::<&str>::new(), search("", ""));
    assert_eq!(Vec::<&str>::new(), search("x", ""));
}

#[test]
fn trailing_newline_adds_no_line() {
    assert_eq!(vec!["a", "a"], search("a", "a\na\n"));
}

#[test]
fn inner_empty_line_is_kept() {
    assert_eq!(vec!["a", "", "ab"], search("", "a\n\nab"));
}

#[test]
fn carriage_return_stays_in_the_line() {
    // Only the line feed splits; a carriage return is line content.
    assert_eq!(vec!["a\r"], search("\r", "a\r\nb"));
}

#[test]
fn match_inside_a_line() {
    assert_eq!(vec!["lorem ipsum"], search("em ip", "lorem ipsum\ndolor sit"));
}

#[test]
fn insensitive_leaves_line_content_untouched() {
    // The returned line keeps its original case.
    assert_eq!(vec!["AXb", "ayX"], search_case_insensitive("x", "AXb\nayX"));
}

#[test]
fn first_insensitive_match_empty_when_nothing_matches() {
    let contents = "alpha\nbeta";
    assert_eq!(
        Vec::<&str>::new(),
        find_first_insensitive_match("gamma", contents)
    );
}

#[test]
fn first_sensitive_match_empty_when_nothing_matches() {
    assert_eq!("", find_first_sensitive_match("gamma", "alpha\nbeta"));
}

#[test]
fn first_sensitive_match_empty_for_empty_query() {
    assert_eq!("", find_first_sensitive_match("", "alpha\nbeta"));
}
