//! Coins and their face values, and a small exercise on optional numbers.

use vstd::prelude::*;

verus! {

/// States a quarter may commemorate.
#[derive(Clone, Copy, Debug, PartialEq, Eq, Structural)]
pub enum UsState {
    Alabama,
    Alaska,
}

/// The coins the till recognises.
pub enum Coin {
    Penny,
    Nickel,
    Dime,
    Quarter(UsState),
}

/// The face value of a coin in cents.
pub open spec fn spec_value_in_cents(coin: Coin) -> u8 {
    match coin {
        Coin::Penny => 1,
        Coin::Nickel => 5,
        Coin::Dime => 10,
        Coin::Quarter(_) => 25,
    }
}

/// Returns the face value of the coin in cents: one for a penny, five for
/// a nickel, ten for a dime and twenty-five for a quarter.
pub fn value_in_cents(coin: Coin) -> (cents: u8)
    ensures
        cents == spec_value_in_cents(coin),
{
    match coin {
        Coin::Penny => 1,
        Coin::Nickel => 5,
        Coin::Dime => 10,
        Coin::Quarter(_) => 25,
    }
}

/// Adds one inside the option: an absent number stays absent.
pub fn plus_one(x: Option<i32>) -> (incremented: Option<i32>)
    requires
        x matches Some(i) ==> i < i32::MAX,
    ensures
        incremented == match x {
            None => None::<i32>,
            Some(i) => Some((i + 1) as i32),
        },
{
    match x {
        None => None,
        Some(i) => Some(i + 1),
    }
}

} // verus!
