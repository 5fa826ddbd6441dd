//! 256-bit unsigned integers for the intermediate products of the pricing
//! formulas.
//!
//! The arithmetic itself is done by `sp_core::U256`. A [`Wide`] holds the four
//! little-endian 64-bit words of such a number, and each function below hands
//! those words to one method of `U256` and takes the words of the answer back.
//! What each method returns is stated here and believed, not proved.

use vstd::prelude::*;

verus! {

/// The first number that no longer fits in 256 bits.
pub open spec fn wide_limit() -> nat {
    0x1_0000_0000_0000_0000_0000_0000_0000_0000_0000_0000_0000_0000_0000_0000_0000_0000nat
}

/// A 256-bit unsigned integer, least significant word first.
#[derive(Clone, Copy, Debug)]
pub struct Wide {
    limbs: [u64; 4],
}

impl View for Wide {
    type V = nat;

    /// The number that the four words stand for.
    closed spec fn view(&self) -> nat {
        (self.limbs[0] as nat) + (self.limbs[1] as nat) * 0x1_0000_0000_0000_0000
            + (self.limbs[2] as nat) * 0x1_0000_0000_0000_0000_0000_0000_0000_0000nat
            + (self.limbs[3] as nat)
            * 0x1_0000_0000_0000_0000_0000_0000_0000_0000_0000_0000_0000_0000nat
    }
}

impl Wide {
    /// Every `Wide` is below [`wide_limit`].
    pub proof fn lemma_bounded(self)
        ensures
            self@ < wide_limit(),
    {
    }

    /// `U256::from(u128)`: the 256-bit number with the same value as `x`.
    #[verifier::external_body]
    pub(crate) fn from_u128(x: u128) -> (r: Wide)
        ensures
            r@ == x,
    {
        Wide { limbs: sp_core::U256::from(x).0 }
    }

    /// `U256::one`: the number 1.
    #[verifier::external_body]
    pub(crate) fn one() -> (r: Wide)
        ensures
            r@ == 1,
    {
        Wide { limbs: sp_core::U256::one().0 }
    }

    /// `U256::is_zero`: whether the number is 0.
    #[verifier::external_body]
    pub(crate) fn is_zero(&self) -> (r: bool)
        ensures
            r == (self@ == 0),
    {
        sp_core::U256(self.limbs).is_zero()
    }

    /// `U256::saturating_add`: the sum, or the largest 256-bit number where
    /// the sum does not fit.
    #[verifier::external_body]
    pub(crate) fn saturating_add(self, other: Wide) -> (r: Wide)
        ensures
            r@ == if self@ + other@ < wide_limit() {
                self@ + other@
            } else {
                (wide_limit() - 1) as nat
            },
    {
        Wide { limbs: sp_core::U256(self.limbs).saturating_add(sp_core::U256(other.limbs)).0 }
    }

    /// `U256::saturating_sub`: the difference, or 0 where `other` is larger.
    #[verifier::external_body]
    pub(crate) fn saturating_sub(self, other: Wide) -> (r: Wide)
        ensures
            r@ == if self@ >= other@ {
                (self@ - other@) as nat
            } else {
                0
            },
    {
        Wide { limbs: sp_core::U256(self.limbs).saturating_sub(sp_core::U256(other.limbs)).0 }
    }

    /// `U256::saturating_mul`: the product, or the largest 256-bit number
    /// where the product does not fit.
    #[verifier::external_body]
    pub(crate) fn saturating_mul(self, other: Wide) -> (r: Wide)
        ensures
            r@ == if self@ * other@ < wide_limit() {
                self@ * other@
            } else {
                (wide_limit() - 1) as nat
            },
    {
        Wide { limbs: sp_core::U256(self.limbs).saturating_mul(sp_core::U256(other.limbs)).0 }
    }

    /// `U256::checked_add`: the sum, or `None` where it does not fit in 256
    /// bits.
    #[verifier::external_body]
    pub(crate) fn checked_add(self, other: Wide) -> (r: Option<Wide>)
        ensures
            match r {
                Some(sum) => sum@ == self@ + other@,
                None => self@ + other@ >= wide_limit(),
            },
    {
        match sp_core::U256(self.limbs).checked_add(sp_core::U256(other.limbs)) {
            Some(sum) => Some(Wide { limbs: sum.0 }),
            None => None,
        }
    }

    /// `U256::checked_mul`: the product, or `None` where it does not fit in
    /// 256 bits.
    #[verifier::external_body]
    pub(crate) fn checked_mul(self, other: Wide) -> (r: Option<Wide>)
        ensures
            match r {
                Some(product) => product@ == self@ * other@,
                None => self@ * other@ >= wide_limit(),
            },
    {
        match sp_core::U256(self.limbs).checked_mul(sp_core::U256(other.limbs)) {
            Some(product) => Some(Wide { limbs: product.0 }),
            None => None,
        }
    }

    /// `U256::checked_div`: the quotient rounded down, or `None` where the
    /// divisor is 0.
    #[verifier::external_body]
    pub(crate) fn checked_div(self, other: Wide) -> (r: Option<Wide>)
        ensures
            match r {
                Some(quotient) => other@ != 0 && quotient@ == self@ / other@,
                None => other@ == 0,
            },
    {
        match sp_core::U256(self.limbs).checked_div(sp_core::U256(other.limbs)) {
            Some(quotient) => Some(Wide { limbs: quotient.0 }),
            None => None,
        }
    }

    /// `U256::checked_rem`: the remainder of the division, or `None` where
    /// the divisor is 0.
    #[verifier::external_body]
    pub(crate) fn checked_rem(self, other: Wide) -> (r: Option<Wide>)
        ensures
            match r {
                Some(remainder) => other@ != 0 && remainder@ == self@ % other@,
                None => other@ == 0,
            },
    {
        match sp_core::U256(self.limbs).checked_rem(sp_core::U256(other.limbs)) {
            Some(remainder) => Some(Wide { limbs: remainder.0 }),
            None => None,
        }
    }

    /// `u128::try_from(U256)`: the same value as a `u128`, or `None` where it
    /// needs more than 128 bits.
    #[verifier::external_body]
    pub(crate) fn to_u128(self) -> (r: Option<u128>)
        ensures
            match r {
                Some(x) => x == self@,
                None => self@ > u128::MAX,
            },
    {
        match u128::try_from(sp_core::U256(self.limbs)) {
            Ok(x) => Some(x),
            Err(_) => None,
        }
    }
}

} // verus!
