use crate::rune_id::RuneId;
use std::cmp::Ordering;
use vstd::prelude::*;
use vstd::std_specs::cmp::{PartialEqSpecImpl, PartialOrdSpecImpl};
use vstd::std_specs::convert::FromSpecImpl;

verus! {

/// An amount of one rune.
#[derive(Debug, Clone, Copy, Eq)]
pub struct RuneAmount {
    pub rune_id: RuneId,
    pub amount: u128,
}

impl From<(RuneId, u128)> for RuneAmount {
    fn from(pair: (RuneId, u128)) -> (r: Self) {
        Self { rune_id: pair.0, amount: pair.1 }
    }
}

impl FromSpecImpl<(RuneId, u128)> for RuneAmount {
    open spec fn obeys_from_spec() -> bool {
        true
    }

    open spec fn from_spec(pair: (RuneId, u128)) -> Self {
        RuneAmount { rune_id: pair.0, amount: pair.1 }
    }
}

impl PartialEq for RuneAmount {
    fn eq(&self, other: &RuneAmount) -> (r: bool) {
        self.rune_id == other.rune_id && self.amount == other.amount
    }
}

impl PartialEqSpecImpl for RuneAmount {
    open spec fn obeys_eq_spec() -> bool {
        true
    }

    open spec fn eq_spec(&self, other: &RuneAmount) -> bool {
        self.rune_id == other.rune_id && self.amount == other.amount
    }
}

/// An amount equals a rune identifier when it is an amount of that rune.
impl PartialEq<RuneId> for RuneAmount {
    fn eq(&self, other: &RuneId) -> (r: bool) {
        self.rune_id == *other
    }
}

impl PartialEqSpecImpl<RuneId> for RuneAmount {
    open spec fn obeys_eq_spec() -> bool {
        true
    }

    open spec fn eq_spec(&self, other: &RuneId) -> bool {
        self.rune_id == *other
    }
}

/// Amounts of one rune are ordered by size; amounts of different runes
/// cannot be compared.
impl PartialOrd for RuneAmount {
    fn partial_cmp(&self, other: &RuneAmount) -> (r: Option<Ordering>) {
        if self.rune_id != other.rune_id {
            None
        } else if self.amount < other.amount {
            Some(Ordering::Less)
        } else if self.amount == other.amount {
            Some(Ordering::Equal)
        } else {
            Some(Ordering::Greater)
        }
    }
}

impl PartialOrdSpecImpl for RuneAmount {
    open spec fn obeys_partial_cmp_spec() -> bool {
        true
    }

    open spec fn partial_cmp_spec(&self, other: &RuneAmount) -> Option<Ordering> {
        if self.rune_id != other.rune_id {
            None
        } else if self.amount < other.amount {
            Some(Ordering::Less)
        } else if self.amount == other.amount {
            Some(Ordering::Equal)
        } else {
            Some(Ordering::Greater)
        }
    }
}

} // verus!
