//! The guessing game's pieces: a guess held to the range 1 through 100,
//! a secret drawn from the same range, and the verdict on one guess.

use vstd::prelude::*;
use vstd::string::StrSliceExecFns;

use rand::Rng;

use crate::parse::all_digits;
use crate::parse::digits_val;
use crate::parse::int_text_val;
use crate::parse::is_digit;
use crate::parse::is_int_text;
use crate::parse::lemma_digits_val_nonneg;
use crate::parse::lemma_digits_val_take_le;
use crate::parse::trim_ascii;
use crate::parse::trim_spec;

verus! {

/// A player's guess, held to the range 1 through 100.
pub struct Guess {
    value: i32,
}

impl Guess {
    /// The number the guess holds.
    pub closed spec fn spec_value(&self) -> i32 {
        self.value
    }

    /// Wraps a number as a guess; only numbers from 1 through 100 are
    /// admitted.
    pub fn new(value: i32) -> (guess: Guess)
        requires
            1 <= value <= 100,
        ensures
            guess.spec_value() == value,
    {
        Guess { value }
    }

    /// The number the guess holds.
    pub fn value(&self) -> (value: i32)
        ensures
            value == self.spec_value(),
    {
        self.value
    }
}

/// Declares rand::rngs::ThreadRng, the thread-local generator's handle,
/// so that it can appear in signatures; its insides stay opaque.
#[verifier::external_type_specification]
#[verifier::external_body]
pub struct ExThreadRng(rand::rngs::ThreadRng);

/// Relies on rand::thread_rng: hands back a handle to the thread-local
/// random number generator.
#[verifier::external_body]
fn new_rng() -> rand::rngs::ThreadRng {
    rand::thread_rng()
}

/// Relies on Rng::gen_range over an inclusive integer range: the sample
/// lies within the given bounds.  The call rejects an empty range, so the
/// bounds must be ordered.
#[verifier::external_body]
fn sample_in_range(rng: &mut rand::rngs::ThreadRng, lo: i32, hi: i32) -> (sample: i32)
    requires
        lo <= hi,
    ensures
        lo <= sample <= hi,
{
    rng.gen_range(lo..=hi)
}

/// Draws the secret number of one game round: some number from 1 through
/// 100.
pub fn draw_secret() -> (secret: i32)
    ensures
        1 <= secret <= 100,
{
    let mut rng = new_rng();
    sample_in_range(&mut rng, 1, 100)
}

/// Reads a guess from one line of input: the line, stripped of the
/// whitespace around it, must be an optionally signed run of decimal
/// digits denoting a number from 1 through 100.
pub fn make_a_guess(input: &str) -> (guess: Guess)
    requires
        is_int_text(trim_spec(input@)),
        1 <= int_text_val(trim_spec(input@)) <= 100,
    ensures
        guess.spec_value() == int_text_val(trim_spec(input@)),
{
    let trimmed = trim_ascii(input);
    let ghost tv = trim_spec(input@);
    let n = trimmed.unicode_len();
    let first = trimmed.get_char(0);
    let neg = first == '-';
    let start: usize = if first == '-' || first == '+' {
        1
    } else {
        0
    };
    proof {
        if neg {
            // A negative number cannot lie between 1 and 100.
            lemma_digits_val_nonneg(tv.skip(1));
        }
        if start == 1 {
            assert(tv.subrange(1, n as int) =~= tv.skip(1));
        } else {
            assert(tv.subrange(0, n as int) =~= tv);
        }
        assert forall|j: int| start <= j < n implies is_digit(#[trigger] tv[j]) by {
            if start == 1 {
                assert(tv.skip(1)[j - 1] == tv[j]);
                assert(is_digit(tv.skip(1)[j - 1]));
            }
        }
    }
    let mut acc: i32 = 0;
    let mut i: usize = start;
    while i < n
        invariant
            start <= i <= n,
            n == trimmed@.len(),
            trimmed@ == tv,
            forall|j: int| start <= j < n ==> is_digit(#[trigger] tv[j]),
            all_digits(tv.subrange(start as int, n as int)),
            0 <= digits_val(tv.subrange(start as int, n as int)) <= 100,
            acc == digits_val(tv.subrange(start as int, i as int)),
            0 <= acc <= 100,
        decreases n - i,
    {
        let c = trimmed.get_char(i);
        let code = c as u32;
        proof {
            let digits = tv.subrange(start as int, n as int);
            assert(is_digit(tv[i as int]));
            assert(tv.subrange(start as int, i + 1).drop_last() =~= tv.subrange(
                start as int,
                i as int,
            ));
            assert(tv.subrange(start as int, i + 1).last() == tv[i as int]);
            assert(digits.take(i + 1 - start) =~= tv.subrange(start as int, i + 1));
            lemma_digits_val_take_le(digits, i + 1 - start);
        }
        let d = (code - 48) as i32;
        acc = acc * 10 + d;
        i = i + 1;
    }
    let value = if neg {
        0 - acc
    } else {
        acc
    };
    proof {
        assert(tv.subrange(start as int, n as int) =~= (if start == 1 {
            tv.skip(1)
        } else {
            tv
        }));
    }
    Guess::new(value)
}

/// The verdict on one guess against the secret.
#[derive(Clone, Copy, Debug, PartialEq, Eq, Structural)]
pub enum GuessOutcome {
    TooSmall,
    TooBig,
    Win,
}

/// Compares a guess with the secret: too small, too big, or a win when
/// they agree.
pub fn guess_outcome(guess: &Guess, secret: i32) -> (outcome: GuessOutcome)
    ensures
        (outcome == GuessOutcome::TooSmall) <==> guess.spec_value() < secret,
        (outcome == GuessOutcome::TooBig) <==> guess.spec_value() > secret,
        (outcome == GuessOutcome::Win) <==> guess.spec_value() == secret,
{
    let value = guess.value();
    if value < secret {
        GuessOutcome::TooSmall
    } else if value > secret {
        GuessOutcome::TooBig
    } else {
        GuessOutcome::Win
    }
}

} // verus!
