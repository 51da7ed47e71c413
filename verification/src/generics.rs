//! Finding the largest element of a slice, for concrete element types and
//! for any ordered element type, and two generic point types.

use vstd::prelude::*;
use vstd::std_specs::cmp::PartialOrdSpec;

verus! {

/// The largest value in a non-empty slice of integers.
pub fn largest_i32(list: &[i32]) -> (max: i32)
    requires
        list@.len() > 0,
    ensures
        list@.contains(max),
        forall|k: int| 0 <= k < list@.len() ==> list@[k] <= max,
{
    let n = list.len();
    let mut max = list[0];
    let mut i: usize = 1;
    while i < n
        invariant
            1 <= i <= n,
            n == list@.len(),
            exists|j: int| 0 <= j < i && list@[j] == max,
            forall|k: int| 0 <= k < i ==> list@[k] <= max,
        decreases n - i,
    {
        if list[i] > max {
            max = list[i];
        }
        i = i + 1;
    }
    max
}

/// The largest character in a non-empty slice of characters.
pub fn largest_char(list: &[char]) -> (max: &char)
    requires
        list@.len() > 0,
    ensures
        list@.contains(*max),
        forall|k: int| 0 <= k < list@.len() ==> list@[k] <= *max,
{
    let n = list.len();
    let mut best: usize = 0;
    let mut i: usize = 1;
    while i < n
        invariant
            1 <= i <= n,
            best < i,
            n == list@.len(),
            forall|k: int| 0 <= k < i ==> list@[k] <= list@[best as int],
        decreases n - i,
    {
        if list[i] > list[best] {
            best = i;
        }
        i = i + 1;
    }
    &list[best]
}

/// The element the left-to-right scan for a largest element ends on: each
/// element strictly greater than the running result replaces it.
pub open spec fn running_largest<T: PartialOrd>(s: Seq<T>) -> T
    recommends
        s.len() > 0,
    decreases s.len(),
{
    if s.len() <= 1 {
        s[0]
    } else {
        let prev = running_largest(s.drop_last());
        if s.last().partial_cmp_spec(&prev) == Some(core::cmp::Ordering::Greater) {
            s.last()
        } else {
            prev
        }
    }
}

/// The element of a non-empty slice that the left-to-right scan ends on:
/// the largest one whenever the element type's ordering behaves as its
/// comparison specification says.
pub fn largest<T: PartialOrd>(list: &[T]) -> (max: &T)
    requires
        list@.len() > 0,
    ensures
        list@.contains(*max),
        T::obeys_partial_cmp_spec() ==> *max == running_largest(list@),
{
    let n = list.len();
    let mut best: usize = 0;
    let mut i: usize = 1;
    while i < n
        invariant
            1 <= i <= n,
            best < i,
            n == list@.len(),
            T::obeys_partial_cmp_spec() ==> list@[best as int] == running_largest(
                list@.take(i as int),
            ),
        decreases n - i,
    {
        proof {
            assert(list@.take(i + 1).drop_last() =~= list@.take(i as int));
            assert(list@.take(i + 1).last() == list@[i as int]);
        }
        if &list[i] > &list[best] {
            best = i;
        }
        i = i + 1;
    }
    proof {
        assert(list@.take(n as int) =~= list@);
    }
    &list[best]
}

/// A point whose two coordinates share one type.
#[derive(Debug)]
pub struct Point<T> {
    pub x: T,
    pub y: T,
}

impl<T> Point<T> {
    /// A reference to the first coordinate.
    pub fn x(&self) -> (x: &T)
        ensures
            *x == self.x,
    {
        &self.x
    }
}

/// A point whose two coordinates may have different types.
#[derive(Debug)]
pub struct MyPoint<X1, Y1> {
    pub x: X1,
    pub y: Y1,
}

impl<X1, Y1> MyPoint<X1, Y1> {
    /// A point made of this point's first coordinate and the other
    /// point's second coordinate.
    pub fn mixup<X2, Y2>(self, other: MyPoint<X2, Y2>) -> (mixed: MyPoint<X1, Y2>)
        ensures
            mixed.x == self.x,
            mixed.y == other.y,
    {
        MyPoint { x: self.x, y: other.y }
    }
}

} // verus!
