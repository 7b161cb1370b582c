//! Tunable constants of the drill.

use vstd::prelude::*;

verus! {

/// A share of the secret's length, between nothing and all of it.
#[derive(Clone, Copy, Debug, PartialEq, Eq, Structural)]
pub struct Fraction {
    pub numerator: u32,
    pub denominator: u32,
}

impl Fraction {
    /// The denominator is positive and the value is at most one.
    pub open spec fn wf(self) -> bool {
        0 < self.denominator && self.numerator <= self.denominator
    }

    /// `floor(amount * self)`.
    pub open spec fn floor_of(self, amount: nat) -> nat {
        (amount * self.numerator / (self.denominator as int)) as nat
    }

    /// Tells whether the fraction is well-formed.
    pub fn is_valid(&self) -> (valid: bool)
        ensures
            valid == self.wf(),
    {
        0 < self.denominator && self.numerator <= self.denominator
    }
}

/// The constants that steer a session.
#[derive(Clone, Copy, Debug, PartialEq, Eq, Structural)]
pub struct Config {
    /// Tries granted at a difficulty before it is lowered.
    pub max_attempts: u32,
    /// Tries granted at the first difficulty.
    pub starting_attempts: u32,
    /// Share of the secret hidden in the first round.
    pub starting_difficulty: Fraction,
    /// Largest share of the secret by which one success raises the difficulty.
    pub max_difficulty_increase: Fraction,
}

impl Config {
    /// Every difficulty grants a try at least, the first one no more tries
    /// than the others, and both shares are well-formed.
    pub open spec fn wf(self) -> bool {
        &&& 1 <= self.max_attempts
        &&& self.starting_attempts <= self.max_attempts
        &&& self.starting_difficulty.wf()
        &&& self.max_difficulty_increase.wf()
    }

    /// Five tries per difficulty, two at the start, one fifth of the secret
    /// hidden at first and at most one fifth more after a success.
    pub open spec fn standard() -> Config {
        Config {
            max_attempts: 5,
            starting_attempts: 2,
            starting_difficulty: Fraction { numerator: 1, denominator: 5 },
            max_difficulty_increase: Fraction { numerator: 1, denominator: 5 },
        }
    }

    /// Tells whether the constants are well-formed.
    pub fn is_valid(&self) -> (valid: bool)
        ensures
            valid == self.wf(),
    {
        1 <= self.max_attempts && self.starting_attempts <= self.max_attempts
            && self.starting_difficulty.is_valid() && self.max_difficulty_increase.is_valid()
    }
}

impl Default for Config {
    fn default() -> (config: Config)
        ensures
            config == Config::standard(),
            config.wf(),
    {
        Config {
            max_attempts: 5,
            starting_attempts: 2,
            starting_difficulty: Fraction { numerator: 1, denominator: 5 },
            max_difficulty_increase: Fraction { numerator: 1, denominator: 5 },
        }
    }
}

} // verus!
