//! The 256-bit scratch value in which the formulas multiply and divide.
//!
//! The arithmetic itself is done by `primitive_types::U256`. Each function
//! below makes one call into it, and its contract is taken on trust.

use primitive_types::U256;
use vstd::prelude::*;

verus! {

/// The largest number that a `Wide` can hold: `2^256 - 1`.
pub(crate) open spec fn wide_max() -> nat {
    0xffff_ffff_ffff_ffff_ffff_ffff_ffff_ffff_ffff_ffff_ffff_ffff_ffff_ffff_ffff_ffffnat
}

/// An unsigned integer of 256 bits: four 64-bit words, the least significant
/// first, as `U256` lays them out.
#[derive(Clone, Copy)]
pub(crate) struct Wide {
    limbs: [u64; 4],
}

impl View for Wide {
    type V = nat;

    /// The number that the four words stand for.
    closed spec fn view(&self) -> nat {
        (self.limbs[0] as nat)
            + (self.limbs[1] as nat) * 0x1_0000_0000_0000_0000nat
            + (self.limbs[2] as nat) * 0x1_0000_0000_0000_0000_0000_0000_0000_0000nat
            + (self.limbs[3] as nat)
                * 0x1_0000_0000_0000_0000_0000_0000_0000_0000_0000_0000_0000_0000nat
    }
}

impl Wide {
    /// Widens a balance. Trusted: `U256::from` keeps the value of its `u128`
    /// argument (low half in the first word, high half in the second, zero
    /// above).
    #[verifier::external_body]
    pub(crate) fn from_u128(x: u128) -> (w: Wide)
        ensures
            w@ == x,
    {
        Wide { limbs: U256::from(x).0 }
    }

    /// Trusted: `U256::is_zero` is true exactly when every word is zero.
    #[verifier::external_body]
    pub(crate) fn is_zero(self) -> (z: bool)
        ensures
            z == (self@ == 0),
    {
        U256(self.limbs).is_zero()
    }

    /// Trusted: `U256::checked_add` returns the sum, or `None` exactly when
    /// the sum does not fit in 256 bits.
    #[verifier::external_body]
    pub(crate) fn checked_add(self, rhs: Wide) -> (sum: Option<Wide>)
        ensures
            match sum {
                Some(s) => self@ + rhs@ <= wide_max() && s@ == self@ + rhs@,
                None => self@ + rhs@ > wide_max(),
            },
    {
        match U256(self.limbs).checked_add(U256(rhs.limbs)) {
            Some(s) => Some(Wide { limbs: s.0 }),
            None => None,
        }
    }

    /// Trusted: `U256::checked_sub` returns the difference, or `None` exactly
    /// when `rhs` is the larger.
    #[verifier::external_body]
    pub(crate) fn checked_sub(self, rhs: Wide) -> (diff: Option<Wide>)
        ensures
            match diff {
                Some(d) => self@ >= rhs@ && d@ == self@ - rhs@,
                None => self@ < rhs@,
            },
    {
        match U256(self.limbs).checked_sub(U256(rhs.limbs)) {
            Some(d) => Some(Wide { limbs: d.0 }),
            None => None,
        }
    }

    /// Trusted: `U256::checked_mul` returns the product, or `None` exactly
    /// when the product does not fit in 256 bits.
    #[verifier::external_body]
    pub(crate) fn checked_mul(self, rhs: Wide) -> (product: Option<Wide>)
        ensures
            match product {
                Some(p) => self@ * rhs@ <= wide_max() && p@ == self@ * rhs@,
                None => self@ * rhs@ > wide_max(),
            },
    {
        match U256(self.limbs).checked_mul(U256(rhs.limbs)) {
            Some(p) => Some(Wide { limbs: p.0 }),
            None => None,
        }
    }

    /// Trusted: `U256::checked_div` returns the quotient rounded down, or
    /// `None` exactly when `rhs` is zero.
    #[verifier::external_body]
    pub(crate) fn checked_div(self, rhs: Wide) -> (quotient: Option<Wide>)
        ensures
            match quotient {
                Some(q) => rhs@ != 0 && q@ == self@ / rhs@,
                None => rhs@ == 0,
            },
    {
        match U256(self.limbs).checked_div(U256(rhs.limbs)) {
            Some(q) => Some(Wide { limbs: q.0 }),
            None => None,
        }
    }

    /// Narrows to a balance. Trusted: `u128::try_from` on a `U256` returns
    /// the value when the two upper words are zero, and fails otherwise.
    #[verifier::external_body]
    pub(crate) fn to_u128(self) -> (narrow: Option<u128>)
        ensures
            match narrow {
                Some(v) => v == self@,
                None => self@ > u128::MAX,
            },
    {
        match u128::try_from(U256(self.limbs)) {
            Ok(v) => Some(v),
            Err(_) => None,
        }
    }
}

} // verus!
