//! Fixed-point unsigned amounts ("atoms"). All arithmetic is checked:
//! an overflowing sum or an underflowing difference yields `None`
//! rather than wrapping.

use vstd::prelude::*;

verus! {

/// An amount of coins or tokens, counted in indivisible atoms.
#[derive(Debug, Clone, Copy, PartialEq, Eq, Structural, PartialOrd, Ord)]
pub struct Amount {
    pub atoms: u128,
}

impl Amount {
    /// The mathematical value of this amount.
    pub open spec fn view(self) -> int {
        self.atoms as int
    }

    pub fn from_atoms(v: u128) -> (r: Amount)
        ensures
            r@ == v as int,
    {
        Amount { atoms: v }
    }

    pub fn into_atoms(self) -> (r: u128)
        ensures
            r as int == self@,
    {
        self.atoms
    }

    pub fn zero() -> (r: Amount)
        ensures
            r@ == 0,
    {
        Amount { atoms: 0 }
    }

    /// Checked addition: `None` exactly when the sum does not fit.
    pub fn add(self, other: Amount) -> (r: Option<Amount>)
        ensures
            self@ + other@ <= u128::MAX ==> r == Some(Amount { atoms: (self.atoms + other.atoms) as u128 }),
            self@ + other@ > u128::MAX ==> r is None,
            r is Some ==> r->0@ == self@ + other@,
    {
        match self.atoms.checked_add(other.atoms) {
            Some(v) => Some(Amount { atoms: v }),
            None => None,
        }
    }

    /// Checked subtraction: `None` exactly when `other` exceeds `self`.
    pub fn sub(self, other: Amount) -> (r: Option<Amount>)
        ensures
            self@ >= other@ ==> r == Some(Amount { atoms: (self.atoms - other.atoms) as u128 }),
            self@ < other@ ==> r is None,
            r is Some ==> r->0@ == self@ - other@,
    {
        match self.atoms.checked_sub(other.atoms) {
            Some(v) => Some(Amount { atoms: v }),
            None => None,
        }
    }

    /// Checked multiplication.
    pub fn mul(self, other: Amount) -> (r: Option<Amount>)
        ensures
            self@ * other@ <= u128::MAX ==> (r is Some && r->0@ == self@ * other@),
            self@ * other@ > u128::MAX ==> r is None,
    {
        match self.atoms.checked_mul(other.atoms) {
            Some(v) => Some(Amount { atoms: v }),
            None => None,
        }
    }

    /// Division by an integer; `None` on a zero divisor.
    pub fn div_int(self, divisor: u128) -> (r: Option<Amount>)
        ensures
            divisor != 0 ==> (r is Some && r->0@ == self@ / divisor as int),
            divisor == 0 ==> r is None,
    {
        if divisor == 0 {
            None
        } else {
            Some(Amount { atoms: self.atoms / divisor })
        }
    }

    pub fn lt(self, other: Amount) -> (r: bool)
        ensures
            r == (self@ < other@),
    {
        self.atoms < other.atoms
    }

    pub fn le(self, other: Amount) -> (r: bool)
        ensures
            r == (self@ <= other@),
    {
        self.atoms <= other.atoms
    }

    pub fn max_of(self, other: Amount) -> (r: Amount)
        ensures
            r@ == if self@ >= other@ { self@ } else { other@ },
    {
        if self.atoms >= other.atoms {
            self
        } else {
            other
        }
    }

    pub fn min_of(self, other: Amount) -> (r: Amount)
        ensures
            r@ == if self@ <= other@ { self@ } else { other@ },
    {
        if self.atoms <= other.atoms {
            self
        } else {
            other
        }
    }
}

} // verus!
