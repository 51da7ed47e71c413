//! Verified library for a small line-search tool and a collection of
//! elementary verified functions and data types.
//!
//! The heart of the crate is the `search` module: a case-sensitive and a
//! case-insensitive substring search over the lines of a text, together with
//! the argument parser (`config`) that builds the tool's configuration and
//! resolves the effective case mode.

pub mod adder;
pub mod borrowing;
pub mod coins;
pub mod excerpt;
pub mod config;
pub mod fold;
pub mod generics;
pub mod guess;
pub mod notify;
pub mod numbers;
pub mod ownership;
pub mod parse;
pub mod rectangles;
pub mod restaurant;
pub mod search;
pub mod shirts;
pub mod summary;
pub mod text;
pub mod users;
pub mod words;

pub use adder::add;
pub use adder::add_two;
pub use adder::greeting;
pub use adder::Rectangle;
pub use config::CaseFlag;
pub use config::Config;
pub use config::run_search;
pub use config::spec_banner;
pub use config::spec_case_flag;
pub use config::spec_insensitive;
pub use fold::lower;
pub use fold::lower_char;
pub use fold::to_lower_char;
pub use guess::draw_secret;
pub use guess::make_a_guess;
pub use guess::Guess;
pub use guess::GuessOutcome;
pub use guess::guess_outcome;
pub use restaurant::Appetizer;
pub use restaurant::Breakfast;
pub use search::contains_run;
pub use search::find_first_insensitive_match;
pub use search::find_first_sensitive_match;
pub use search::is_subsequence_of;
pub use search::lemma_empty_query;
pub use search::lemma_line_integrity;
pub use search::lemma_match_iff_insensitive;
pub use search::lemma_match_iff_sensitive;
pub use search::lemma_order_preserved;
pub use search::line_matches;
pub use search::matched_lines;
pub use search::search;
pub use search::search_case_insensitive;
pub use text::lines_of;
pub use words::last_char_of_first_line;
