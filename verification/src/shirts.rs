//! A shirt give-away: a store's stock and the rule for picking the colour
//! a winner receives.

use vstd::prelude::*;

verus! {

/// The two shirt colours the store stocks.
#[derive(Clone, Copy, Debug, PartialEq, Eq, Structural)]
pub enum ShirtColor {
    Red,
    Blue,
}

/// The store's stock of shirts.
pub struct Inventory {
    pub shirts: Vec<ShirtColor>,
}

/// How many shirts of the given colour the stock holds.
pub open spec fn color_count(shirts: Seq<ShirtColor>, color: ShirtColor) -> int
    decreases shirts.len(),
{
    if shirts.len() == 0 {
        0
    } else {
        color_count(shirts.drop_last(), color) + if shirts.last() == color {
            1int
        } else {
            0int
        }
    }
}

impl Inventory {
    /// The colour the store holds most of; blue when the counts are even.
    pub open spec fn spec_most_stocked(&self) -> ShirtColor {
        if color_count(self.shirts@, ShirtColor::Red) > color_count(
            self.shirts@,
            ShirtColor::Blue,
        ) {
            ShirtColor::Red
        } else {
            ShirtColor::Blue
        }
    }

    /// Counts the stock and returns the colour with strictly more shirts,
    /// blue when the counts are even.
    pub fn most_stocked(&self) -> (color: ShirtColor)
        ensures
            color == self.spec_most_stocked(),
    {
        let mut num_red: usize = 0;
        let mut num_blue: usize = 0;
        let n = self.shirts.len();
        let mut i: usize = 0;
        while i < n
            invariant
                i <= n,
                n == self.shirts@.len(),
                num_red + num_blue == i,
                num_red == color_count(self.shirts@.take(i as int), ShirtColor::Red),
                num_blue == color_count(self.shirts@.take(i as int), ShirtColor::Blue),
            decreases n - i,
        {
            proof {
                assert(self.shirts@.take(i + 1).drop_last() =~= self.shirts@.take(i as int));
                assert(self.shirts@.take(i + 1).last() == self.shirts@[i as int]);
            }
            match self.shirts[i] {
                ShirtColor::Red => {
                    num_red = num_red + 1;
                },
                ShirtColor::Blue => {
                    num_blue = num_blue + 1;
                },
            }
            i = i + 1;
        }
        proof {
            assert(self.shirts@.take(n as int) =~= self.shirts@);
        }
        if num_red > num_blue {
            ShirtColor::Red
        } else {
            ShirtColor::Blue
        }
    }

    /// The colour a winner receives: their stated preference, or the most
    /// stocked colour when they stated none.
    pub fn giveaway(&self, user_preference: Option<ShirtColor>) -> (color: ShirtColor)
        ensures
            color == match user_preference {
                Some(preferred) => preferred,
                None => self.spec_most_stocked(),
            },
    {
        match user_preference {
            Some(preferred) => preferred,
            None => self.most_stocked(),
        }
    }
}

} // verus!
