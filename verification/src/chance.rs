//! The two places where a tick asks for a random value.

use crate::grid::Position;
use rand::seq::IteratorRandom;
use vstd::prelude::*;

verus! {

/// `rand::random_ratio`: true with a chance of `numerator` in `denominator`.
/// All that is claimed of the outcome is what the function documents for the
/// two ends: never true for a numerator of zero, always true when numerator
/// and denominator are equal. It panics on a zero denominator and on a
/// numerator above the denominator, which `requires` rules out.
#[verifier::external_body]
pub(crate) fn draw_explore(numerator: u32, denominator: u32) -> (explore: bool)
    requires
        denominator > 0,
        numerator <= denominator,
    ensures
        numerator == 0 ==> !explore,
        numerator == denominator ==> explore,
{
    rand::random_ratio(numerator, denominator)
}

/// `IteratorRandom::choose` on the options in order, with the thread's
/// generator: one of the options, and nothing only when there is none.
#[verifier::external_body]
pub(crate) fn draw_neighbour(options: &Vec<Position>) -> (drawn: Option<Position>)
    ensures
        match drawn {
            Some(n) => options@.contains(n),
            None => options@.len() == 0,
        },
{
    options.iter().choose(&mut rand::rng()).copied()
}

} // verus!
