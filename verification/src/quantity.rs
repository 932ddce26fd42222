//! Measured quantities, held exactly.

use vstd::prelude::*;

verus! {

/// A measured quantity.
///
/// A quantity is kept as the text or the integers it was derived from, so
/// that nothing is rounded on the way to the caller.
#[derive(Debug, Clone, PartialEq, Eq)]
pub enum Quantity {
    /// The value of `numeral`, a numeral as it stood in the text, divided by `divisor`.
    Reading { numeral: String, divisor: u64 },
    /// `numerator` divided by `denominator`. With a denominator of zero the
    /// quantity has no finite value.
    Ratio { numerator: u128, denominator: u128 },
}

/// What a [`Quantity`] holds, as mathematical values.
pub enum Amount {
    Reading { numeral: Seq<char>, divisor: nat },
    Ratio { numerator: nat, denominator: nat },
}

impl View for Quantity {
    type V = Amount;

    open spec fn view(&self) -> Amount {
        match self {
            Quantity::Reading { numeral, divisor } => Amount::Reading {
                numeral: numeral@,
                divisor: *divisor as nat,
            },
            Quantity::Ratio { numerator, denominator } => Amount::Ratio {
                numerator: *numerator as nat,
                denominator: *denominator as nat,
            },
        }
    }
}

/// The whole number `n`.
pub open spec fn whole(n: nat) -> Amount {
    Amount::Ratio { numerator: n, denominator: 1 }
}

/// The numeral `t` as it stands.
pub open spec fn plain(t: Seq<char>) -> Amount {
    Amount::Reading { numeral: t, divisor: 1 }
}

/// The view of an optional quantity.
pub open spec fn amount_of(q: Option<Quantity>) -> Option<Amount> {
    match q {
        Some(q) => Some(q@),
        None => None,
    }
}

impl Quantity {
    /// The numeral held in `token`, divided by `divisor`.
    pub fn reading(token: &Vec<char>, divisor: u64) -> (q: Quantity)
        ensures
            q@ == (Amount::Reading { numeral: token@, divisor: divisor as nat }),
    {
        Quantity::Reading { numeral: crate::text::string_of(token), divisor }
    }

    /// `numerator` divided by `denominator`.
    pub fn ratio(numerator: u128, denominator: u128) -> (q: Quantity)
        ensures
            q@ == (Amount::Ratio {
                numerator: numerator as nat,
                denominator: denominator as nat,
            }),
    {
        Quantity::Ratio { numerator, denominator }
    }

    /// A copy of this quantity.
    pub fn duplicate(&self) -> (q: Quantity)
        ensures
            q@ == self@,
    {
        match self {
            Quantity::Reading { numeral, divisor } => Quantity::Reading {
                numeral: numeral.clone(),
                divisor: *divisor,
            },
            Quantity::Ratio { numerator, denominator } => Quantity::Ratio {
                numerator: *numerator,
                denominator: *denominator,
            },
        }
    }
}

} // verus!
