//! The back of house: a breakfast with a choosable toast and a fixed
//! seasonal fruit, and the appetizer menu.

use vstd::prelude::*;
use vstd::string::StringExecFns;

verus! {

/// A breakfast: the toast is the customer's choice, the fruit the season's.
pub struct Breakfast {
    pub toast: String,
    seasonal_fruit: String,
}

impl Breakfast {
    /// The toast the breakfast was ordered with.
    pub closed spec fn toast_spec(&self) -> Seq<char> {
        self.toast@
    }

    /// The fruit that comes with the breakfast.
    pub closed spec fn fruit_spec(&self) -> Seq<char> {
        self.seasonal_fruit@
    }

    /// The summer breakfast: the chosen toast, served with peaches.
    pub fn summer(toast: &str) -> (meal: Breakfast)
        ensures
            meal.toast_spec() == toast@,
            meal.fruit_spec() == "peaches"@,
    {
        Breakfast {
            toast: String::from_str(toast),
            seasonal_fruit: String::from_str("peaches"),
        }
    }
}

/// The appetizers on the menu.
pub enum Appetizer {
    Soup,
    Salad,
}

} // verus!
