//! The smallest and largest totals a roll of dice can give.
//!
//! Totals are `i128`: the largest product of throws and faces does not fit
//! in `i64`.

use vstd::prelude::*;
use crate::dice_types::{filtered_dice, Dice, DiceType, FilteredDice, SelectedDice};

verus! {

pub trait DiceLimits {
    spec fn spec_min(&self) -> int;

    spec fn spec_max(&self) -> int;

    fn min(&self) -> (r: i128)
        ensures
            r == self.spec_min(),
    ;

    fn max(&self) -> (r: i128)
        ensures
            r == self.spec_max(),
    ;
}

proof fn lemma_kind_max_bound(k: DiceType)
    ensures
        0 <= k.spec_max() <= 0xFFFF_FFFF * 0xFFFF_FFFF,
{
    match k {
        DiceType::Multiply(n) => {
            assert(0 <= (n as int) * (n as int) <= 0xFFFF_FFFF * 0xFFFF_FFFF) by (nonlinear_arith)
                requires
                    n <= 0xFFFF_FFFFu32,
            ;
        },
        _ => {},
    }
}

impl DiceLimits for DiceType {
    open spec fn spec_min(&self) -> int {
        match self {
            DiceType::Number(_) => 1,
            DiceType::Fudge => -1,
            DiceType::Multiply(_) => 1,
        }
    }

    open spec fn spec_max(&self) -> int {
        match self {
            DiceType::Number(n) => *n as int,
            DiceType::Fudge => 1,
            DiceType::Multiply(n) => (*n as int) * (*n as int),
        }
    }

    fn min(&self) -> (r: i128) {
        match self {
            DiceType::Number(_) => 1,
            DiceType::Fudge => -1,
            DiceType::Multiply(_) => 1,
        }
    }

    fn max(&self) -> (r: i128) {
        match self {
            DiceType::Number(n) => *n as i128,
            DiceType::Fudge => 1,
            DiceType::Multiply(n) => {
                assert((*n as int) * (*n as int) <= 0xFFFF_FFFF * 0xFFFF_FFFF) by (nonlinear_arith)
                    requires
                        *n <= 0xFFFF_FFFFu32,
                ;
                (*n as i128) * (*n as i128)
            },
        }
    }
}

impl DiceLimits for Dice {
    open spec fn spec_min(&self) -> int {
        (self.throws as int) * self.dice.spec_min()
    }

    open spec fn spec_max(&self) -> int {
        (self.throws as int) * self.dice.spec_max()
    }

    fn min(&self) -> (r: i128) {
        (self.throws as i128) * self.dice.min()
    }

    fn max(&self) -> (r: i128) {
        let m = self.dice.max();
        proof {
            lemma_kind_max_bound(self.dice);
        }
        assert((self.throws as int) * m <= 0xFFFF_FFFF * (0xFFFF_FFFF * 0xFFFF_FFFF)) by (nonlinear_arith)
            requires
                0 <= m <= 0xFFFF_FFFF * 0xFFFF_FFFF,
                self.throws <= 0xFFFF_FFFFu32,
        ;
        (self.throws as i128) * m
    }
}

impl DiceLimits for FilteredDice {
    open spec fn spec_min(&self) -> int {
        filtered_dice(*self).spec_min()
    }

    open spec fn spec_max(&self) -> int {
        filtered_dice(*self).spec_max()
    }

    fn min(&self) -> (r: i128) {
        match self {
            FilteredDice::Simple(d) => d.min(),
            FilteredDice::Filtered(d, _, _) => d.min(),
        }
    }

    fn max(&self) -> (r: i128) {
        match self {
            FilteredDice::Simple(d) => d.max(),
            FilteredDice::Filtered(d, _, _) => d.max(),
        }
    }
}

impl DiceLimits for SelectedDice {
    /// A selection of `n` dice counts `n` of them.
    open spec fn spec_min(&self) -> int {
        match self {
            SelectedDice::Unchanged(d) => d.spec_min(),
            SelectedDice::Selected(d, _, n) => filtered_dice(*d).dice.spec_min() * (*n as int),
        }
    }

    open spec fn spec_max(&self) -> int {
        match self {
            SelectedDice::Unchanged(d) => d.spec_max(),
            SelectedDice::Selected(d, _, n) => filtered_dice(*d).dice.spec_max() * (*n as int),
        }
    }

    fn min(&self) -> (r: i128) {
        match self {
            SelectedDice::Unchanged(d) => d.min(),
            SelectedDice::Selected(d, _, n) => {
                let dc = match d {
                    FilteredDice::Simple(dc) => dc,
                    FilteredDice::Filtered(dc, _, _) => dc,
                };
                dc.dice.min() * (*n as i128)
            },
        }
    }

    fn max(&self) -> (r: i128) {
        match self {
            SelectedDice::Unchanged(d) => d.max(),
            SelectedDice::Selected(d, _, n) => {
                let dc = match d {
                    FilteredDice::Simple(dc) => dc,
                    FilteredDice::Filtered(dc, _, _) => dc,
                };
                let m = dc.dice.max();
                proof {
                    lemma_kind_max_bound(dc.dice);
                }
                assert(m * (*n as int) <= (0xFFFF_FFFF * 0xFFFF_FFFF) * 0xFFFF_FFFF) by (nonlinear_arith)
                    requires
                        0 <= m <= 0xFFFF_FFFF * 0xFFFF_FFFF,
                        *n <= 0xFFFF_FFFFu32,
                ;
                m * (*n as i128)
            },
        }
    }
}

} // verus!
