//! Tests of the argument parser, the mode resolver, the banner and the
//! search driven by a configuration.

use minigrep::CaseFlag;
use minigrep::Config;
use minigrep::run_search;

fn tokens(words: &[&str]) -> Vec<String> {
    let mut out = Vec::new();
    for w in words {
        out.push(w.to_string());
    }
    out
}

#[test]
fn build_rejects_two_tokens() {
    let args = tokens(&["prog", "duct"]);
    let result = Config::build(&args, false);
    assert_eq!(result.err(), Some("Not enough arguments"));
}

#[test]
fn build_rejects_one_token() {
    let args = tokens(&["prog"]);
    assert!(Config::build(&args, false).is_err());
}

#[test]
fn build_accepts_three_tokens() {
    let args = tokens(&["prog", "duct", "poem.txt"]);
    let config = Config::build(&args, false).unwrap();
    assert_eq!(config.query, "duct");
    assert_eq!(config.file_path, "poem.txt");
    assert!(!config.ignore_case);
    assert_eq!(config.cli_case, CaseFlag::NoFlag);
}

#[test]
fn build_accepts_missing_file_path_value() {
    let args = tokens(&["prog", "duct", "/tmp/does_not_exist"]);
    let config = Config::build(&args, false).unwrap();
    assert_eq!(config.file_path, "/tmp/does_not_exist");
}

#[test]
fn build_reads_sensitive_flag() {
    let args = tokens(&["prog", "q", "f", "-s"]);
    let config = Config::build(&args, false).unwrap();
    assert_eq!(config.cli_case, CaseFlag::Sensitive);
    assert!(!config.is_case_insensitive());
}

#[test]
fn build_reads_insensitive_flag() {
    let args = tokens(&["prog", "q", "f", "-i"]);
    let config = Config::build(&args, false).unwrap();
    assert_eq!(config.cli_case, CaseFlag::Insensitive);
    assert!(config.is_case_insensitive());
}

#[test]
fn build_ignores_unknown_flag() {
    let args = tokens(&["prog", "q", "f", "--color"]);
    let config = Config::build(&args, false).unwrap();
    assert_eq!(config.cli_case, CaseFlag::NoFlag);
    assert!(!config.is_case_insensitive());
}

#[test]
fn build_ignores_fifth_token() {
    let args = tokens(&["prog", "q", "f", "-i", "extra"]);
    let config = Config::build(&args, false).unwrap();
    assert_eq!(config.cli_case, CaseFlag::NoFlag);
}

#[test]
fn environment_beats_sensitive_flag() {
    let args = tokens(&["prog", "q", "f", "-s"]);
    let config = Config::build(&args, true).unwrap();
    assert_eq!(config.cli_case, CaseFlag::Sensitive);
    assert!(config.is_case_insensitive());
}

#[test]
fn default_mode_is_sensitive() {
    let args = tokens(&["prog", "q", "f"]);
    let config = Config::build(&args, false).unwrap();
    assert!(!config.is_case_insensitive());
}

#[test]
fn banner_names_the_mode() {
    let base = tokens(&["prog", "q", "f"]);
    assert_eq!(
        Config::build(&base, false).unwrap().search_banner(),
        "Sensitive search"
    );
    assert_eq!(
        Config::build(&base, true).unwrap().search_banner(),
        "Insensitive search"
    );
    let with_s = tokens(&["prog", "q", "f", "-s"]);
    assert_eq!(
        Config::build(&with_s, false).unwrap().search_banner(),
        "Sensitive search with CLI argument"
    );
    let with_i = tokens(&["prog", "q", "f", "-i"]);
    assert_eq!(
        Config::build(&with_i, false).unwrap().search_banner(),
        "Insensitive search with CLI argument"
    );
}

#[test]
fn run_search_obeys_environment_override() {
    let args = tokens(&["prog", "x", "file"]);
    let config = Config::build(&args, true).unwrap();
    let contents = "AXb\nayX";
    assert_eq!(vec!["AXb", "ayX"], run_search(&config, contents));
}

#[test]
fn run_search_sensitive_by_default() {
    let args = tokens(&["prog", "x", "file"]);
    let config = Config::build(&args, false).unwrap();
    let contents = "AXb\nayX";
    assert_eq!(Vec::<&str>::new(), run_search(&config, contents));
}
