//! The number guessing game: a secret number between 1 and 100, and the hint
//! that a guess earns.

use rand::Rng;
use vstd::prelude::*;

verus! {

/// What a guess earns.
#[derive(Clone, Copy, Debug, PartialEq, Eq, Structural)]
pub enum Hint {
    TooSmall,
    TooBig,
    Win,
}

/// `rand::Rng::gen_range` over the inclusive range from `low` to `high`, on
/// the generator of `rand::thread_rng`: some number of the range. It panics
/// on an empty range, which the precondition leaves out.
#[verifier::external_body]
fn random_between(low: u32, high: u32) -> (n: u32)
    requires
        low <= high,
    ensures
        low <= n <= high,
{
    rand::thread_rng().gen_range(low..=high)
}

/// Draws the secret number of a game: any number from 1 to 100 may come.
pub fn secret_number() -> (secret: u32)
    ensures
        1 <= secret <= 100,
{
    random_between(1, 100)
}

/// The hint for `guess`.
pub fn judge(guess: u32, secret: u32) -> (hint: Hint)
    ensures
        guess < secret <==> hint == Hint::TooSmall,
        guess > secret <==> hint == Hint::TooBig,
        guess == secret <==> hint == Hint::Win,
{
    if guess < secret {
        Hint::TooSmall
    } else if guess > secret {
        Hint::TooBig
    } else {
        Hint::Win
    }
}

impl Hint {
    /// Whether the game is over.
    pub fn ends_game(&self) -> (over: bool)
        ensures
            over == (*self == Hint::Win),
    {
        match self {
            Hint::Win => true,
            _ => false,
        }
    }

    /// The line that tells the player.
    pub fn message(&self) -> (line: &'static str)
        ensures
            line@ == match *self {
                Hint::TooSmall => "Too small!"@,
                Hint::TooBig => "Too big!"@,
                Hint::Win => "You win!"@,
            },
    {
        match self {
            Hint::TooSmall => "Too small!",
            Hint::TooBig => "Too big!",
            Hint::Win => "You win!",
        }
    }
}

} // verus!
