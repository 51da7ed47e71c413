//! Tests of the small arithmetic helpers, the greeting and the rectangle.

use minigrep::add;
use minigrep::add_two;
use minigrep::greeting;
use minigrep::Rectangle;

#[test]
fn it_works() {
    let result = add(2, 2);
    assert_eq!(result, 4);
}

#[test]
fn exploration() {
    assert_eq!(2 + 2, 4)
}

#[test]
fn larger_can_hold_smaller() {
    let larger = Rectangle {
        width: 8,
        height: 7,
    };

    let smaller = Rectangle {
        width: 5,
        height: 1,
    };

    assert!(larger.can_hold(&smaller));
}

#[test]
fn smaller_cannot_hold_larger() {
    let larger = Rectangle {
        width: 8,
        height: 7,
    };

    let smaller = Rectangle {
        width: 5,
        height: 1,
    };

    assert!(!smaller.can_hold(&larger));
}

#[test]
fn it_adds_two() {
    assert_eq!(4, add_two(2));
}

#[test]
fn test_ne_rect() {
    let rect1 = Rectangle {
        width: 9,
        height: 5,
    };

    let rect2 = Rectangle {
        width: 8,
        height: 4,
    };

    assert_ne!(rect1, rect2);
}

#[test]
fn greeting_contains_name() {
    let result = greeting("Carol");
    assert!(result.contains("Carol"));
}

#[test]
fn greeting_contains_name_custom() {
    let result = greeting("Carol");
    assert!(
        result.contains("Carol"),
        "Greeting did not contain name, value was '{}'",
        result
    )
}

#[test]
fn add_two_and_two() {
    assert_eq!(4, add_two(2));
}

#[test]
fn add_three_and_two() {
    assert_eq!(5, add_two(3));
}

#[test]
fn one_hundred_and_two() {
    assert_eq!(102, add_two(100));
}
