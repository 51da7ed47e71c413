//! Tests of the remaining exercises: the guessing game, coins, words,
//! slices, ownership, traits, generics and the restaurant.

use minigrep::borrowing;
use minigrep::coins::plus_one;
use minigrep::coins::value_in_cents;
use minigrep::coins::Coin;
use minigrep::coins::UsState;
use minigrep::draw_secret;
use minigrep::excerpt::first_word;
use minigrep::excerpt::longest;
use minigrep::excerpt::ImportantExcerpt;
use minigrep::generics::largest;
use minigrep::generics::largest_char;
use minigrep::generics::largest_i32;
use minigrep::generics::MyPoint;
use minigrep::generics::Point;
use minigrep::greeting;
use minigrep::guess_outcome;
use minigrep::last_char_of_first_line;
use minigrep::notify;
use minigrep::notify::another_function_without_where_clauses;
use minigrep::notify::returns_summarizable;
use minigrep::notify::Pair;
use minigrep::make_a_guess;
use minigrep::numbers;
use minigrep::parse::trim_ascii;
use minigrep::ownership::calculate_length;
use minigrep::ownership::gives_ownership;
use minigrep::ownership::move_two;
use minigrep::ownership::takes_and_gives_back;
use minigrep::rectangles::area;
use minigrep::rectangles::area_with_structs;
use minigrep::rectangles::area_with_tuple;
use minigrep::shirts::Inventory;
use minigrep::shirts::ShirtColor;
use minigrep::summary::NewsArticle;
use minigrep::summary::Summary;
use minigrep::summary::Tweet;
use minigrep::users::build_user;
use minigrep::words::first_word_with_slice;
use minigrep::words::first_word_without_slice;
use minigrep::words::get_first_word;
use minigrep::words::second_word_with_slice;
use minigrep::Breakfast;
use minigrep::Guess;
use minigrep::GuessOutcome;

#[test]
fn guess_keeps_its_value() {
    let guess = Guess::new(42);
    assert_eq!(guess.value(), 42);
    assert_eq!(Guess::new(1).value(), 1);
    assert_eq!(Guess::new(100).value(), 100);
}

#[test]
fn outcome_of_a_guess() {
    let guess = Guess::new(50);
    assert_eq!(guess_outcome(&guess, 70), GuessOutcome::TooSmall);
    assert_eq!(guess_outcome(&guess, 30), GuessOutcome::TooBig);
    assert_eq!(guess_outcome(&guess, 50), GuessOutcome::Win);
}

#[test]
fn secret_stays_in_range() {
    for _ in 0..200 {
        let secret = draw_secret();
        assert!((1..=100).contains(&secret));
    }
}

#[test]
fn coin_values() {
    assert_eq!(value_in_cents(Coin::Penny), 1);
    assert_eq!(value_in_cents(Coin::Nickel), 5);
    assert_eq!(value_in_cents(Coin::Dime), 10);
    assert_eq!(value_in_cents(Coin::Quarter(UsState::Alabama)), 25);
    assert_eq!(value_in_cents(Coin::Quarter(UsState::Alaska)), 25);
}

#[test]
fn plus_one_on_options() {
    assert_eq!(plus_one(Some(5)), Some(6));
    assert_eq!(plus_one(None), None);
}

#[test]
fn plain_number_helpers() {
    assert_eq!(numbers::five(), 5);
    assert_eq!(numbers::plus_one(5), 6);
}

#[test]
fn first_words() {
    let s = String::from("hello world");
    assert_eq!(first_word_without_slice(&s), 5);
    assert_eq!(first_word_with_slice(&s), "hello");
    assert_eq!(second_word_with_slice(&s), "world");
    assert_eq!(get_first_word("my hello world"), "my");
    assert_eq!(get_first_word("plain"), "plain");
    assert_eq!(first_word_without_slice(&String::from("plain")), 5);
    assert_eq!(second_word_with_slice(&String::from("plain")), "plain");
}

#[test]
fn last_char_cases() {
    assert_eq!(last_char_of_first_line("Hello, world\nhow are you"), Some('d'));
    assert_eq!(last_char_of_first_line("abc"), Some('c'));
    assert_eq!(last_char_of_first_line(""), None);
    assert_eq!(last_char_of_first_line("\nabc"), None);
}

#[test]
fn shirts_giveaway() {
    let store = Inventory {
        shirts: vec![ShirtColor::Blue, ShirtColor::Red, ShirtColor::Blue],
    };
    assert_eq!(store.most_stocked(), ShirtColor::Blue);
    assert_eq!(store.giveaway(Some(ShirtColor::Red)), ShirtColor::Red);
    assert_eq!(store.giveaway(None), ShirtColor::Blue);
    let red_store = Inventory {
        shirts: vec![ShirtColor::Red, ShirtColor::Red, ShirtColor::Blue],
    };
    assert_eq!(red_store.giveaway(None), ShirtColor::Red);
    let empty_store = Inventory { shirts: vec![] };
    assert_eq!(empty_store.most_stocked(), ShirtColor::Blue);
}

#[test]
fn summer_breakfast() {
    let meal = Breakfast::summer("whole wheat");
    assert_eq!(meal.toast, "whole wheat");
}

#[test]
fn greeting_builds_the_line() {
    assert_eq!(greeting("Katia"), "Hello, Katia");
}

#[test]
fn article_and_tweet_summaries() {
    let article = NewsArticle {
        headline: String::from("Shocking revelation for Star Wars fans!"),
        location: String::from("Planet Earth"),
        author: String::from("Herr Pulitzer"),
        content: String::from("Luke found out."),
        source: String::from("Not The Real Times"),
    };
    assert_eq!(
        article.summarize(),
        "Shocking revelation for Star Wars fans!, (Not The Real Times)"
    );
    assert_eq!(article.summarize_author(), "Written by Herr Pulitzer");
    let tweet = Tweet {
        username: String::from("darth_vader"),
        content: String::from("I am your father."),
        reply: true,
        retweet: false,
    };
    assert_eq!(tweet.summarize(), "darth_vader: I am your father.");
    assert_eq!(tweet.summarize_author(), "@darth_vader");
}

#[test]
fn notify_summaries() {
    let article = notify::NewsArticle {
        headline: String::from("Breaking"),
        location: String::from("Here"),
        author: String::from("Anna"),
        content: String::from("News."),
        source: String::from("Wire"),
    };
    assert_eq!(notify::Summary::summarize(&article), "Breaking, by Anna(Wire)");
    let tweet = returns_summarizable();
    assert_eq!(
        notify::Summary::summarize(&tweet),
        "yoda: To be or not to be, question is."
    );
    assert!(tweet.reply);
    assert!(!tweet.retweet);
}

#[test]
fn plain_helpers_from_notify() {
    assert_eq!(another_function_without_where_clauses(&3, &"hello"), 33);
    let pair = Pair::new(1, 2);
    assert_eq!(pair.x, 1);
    assert_eq!(pair.y, 2);
}

#[test]
fn largest_of_each_kind() {
    let numbers = vec![34, 50, 25, 100, 65];
    assert_eq!(largest_i32(&numbers), 100);
    let chars = vec!['y', 'm', 'a', 'q'];
    assert_eq!(*largest_char(&chars), 'y');
    assert_eq!(*largest(&numbers), 100);
    assert_eq!(*largest(&chars), 'y');
}

#[test]
fn points_and_mixup() {
    let p = Point { x: 5, y: 10 };
    assert_eq!(*p.x(), 5);
    let p1 = MyPoint { x: 5, y: 10.4 };
    let p2 = MyPoint { x: "Hello", y: 'c' };
    let p3 = p1.mixup(p2);
    assert_eq!(p3.x, 5);
    assert_eq!(p3.y, 'c');
}

#[test]
fn ownership_round_trips() {
    assert_eq!(gives_ownership(), "I will be passed to the caller");
    assert_eq!(takes_and_gives_back(String::from("jump")), "jump");
    let (s, n) = calculate_length(String::from("let's find out the length of this string"));
    assert_eq!(n, 40);
    assert_eq!(s, "let's find out the length of this string");
    assert_eq!(move_two(String::from("a"), String::from("b")), "a");
}

#[test]
fn borrowing_helpers() {
    let s = String::from("hello");
    assert_eq!(borrowing::calculate_length(&s), 5);
    let mut grown = String::from("hello");
    borrowing::change(&mut grown);
    assert_eq!(grown, "hello, world");
    assert_eq!(borrowing::no_dangle(), "hello");
}

#[test]
fn user_builder() {
    let user = build_user(String::from("luke@example.com"), String::from("luke123"));
    assert!(user.active);
    assert_eq!(user.username, "luke123");
    assert_eq!(user.email, "luke@example.com");
    assert_eq!(user.sign_in_count, 1);
}

#[test]
fn rectangle_areas() {
    assert_eq!(area(30, 50), 1500);
    assert_eq!(area_with_tuple((30, 50)), 1500);
    let rect = minigrep::rectangles::Rectangle {
        width: 60,
        height: 50,
    };
    assert_eq!(area_with_structs(&rect), 3000);
}

#[test]
fn longest_and_excerpt() {
    assert_eq!(longest("abcd", "xyz"), "abcd");
    assert_eq!(longest("ab", "xyz"), "xyz");
    let novel = String::from("Call me Bond, James Bond. Once upon a time...");
    let first_sentence = novel.split('.').next().expect("Could not find a '.'");
    let i = ImportantExcerpt {
        part: first_sentence,
    };
    assert_eq!(i.level(), 3);
    assert_eq!(i.announce_and_return_part("pay attention"), first_sentence);
    assert_eq!(first_word(&novel), "Call");
}

#[test]
fn guess_from_input_line() {
    assert_eq!(make_a_guess("42\n").value(), 42);
    assert_eq!(make_a_guess("  7\r\n").value(), 7);
    assert_eq!(make_a_guess("+100").value(), 100);
    assert_eq!(make_a_guess("001").value(), 1);
}

#[test]
fn trim_strips_surrounding_whitespace() {
    assert_eq!(trim_ascii("  hello \n"), "hello");
    assert_eq!(trim_ascii("\t\r\n "), "");
    assert_eq!(trim_ascii("a b"), "a b");
    assert_eq!(trim_ascii(""), "");
}
