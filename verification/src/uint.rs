//! Unsigned 256-bit integers, held as four 64-bit limbs.

use vstd::prelude::*;

verus! {

/// The weight of one limb: two to the power 64.
pub open spec fn limb_base() -> nat {
    0x1_0000_0000_0000_0000
}

/// The number that four limbs stand for, least significant limb first.
pub open spec fn limbs_value(limbs: Seq<u64>) -> nat
    recommends
        limbs.len() == 4,
{
    (limbs[0] + limb_base() * (limbs[1] + limb_base() * (limbs[2] + limb_base() * limbs[3]))) as nat
}

/// An unsigned 256-bit integer.
#[derive(Clone, Copy, Debug, PartialEq, Eq)]
pub struct Uint256 {
    /// The four limbs, least significant first.
    pub limbs: [u64; 4],
}

impl View for Uint256 {
    type V = nat;

    open spec fn view(&self) -> nat {
        limbs_value(self.limbs@)
    }
}

/// Calls `alloy_primitives::U256::from` on a `usize` and hands out the limbs
/// of the result (`into_limbs`). The outside conversion widens the argument to
/// 64 bits, stores it in the least significant limb and leaves the other limbs
/// zero; with 256 bits it cannot fail.
#[verifier::external_body]
fn limbs_of_usize(n: usize) -> (limbs: [u64; 4])
    ensures
        limbs@ == seq![n as u64, 0u64, 0u64, 0u64],
{
    alloy_primitives::U256::from(n).into_limbs()
}

/// Calls `usize::try_from` on the `alloy_primitives::U256` that `from_limbs`
/// makes of `limbs`. The outside conversion succeeds exactly when the number
/// is at most `usize::MAX`, and then returns that number.
#[verifier::external_body]
fn usize_of_limbs(limbs: &[u64; 4]) -> (n: Option<usize>)
    ensures
        match n {
            Some(number) => number == limbs_value(limbs@),
            None => limbs_value(limbs@) > usize::MAX,
        },
{
    usize::try_from(alloy_primitives::U256::from_limbs(*limbs)).ok()
}

impl Uint256 {
    /// The integer with the given limbs, least significant first.
    pub fn from_limbs(limbs: [u64; 4]) -> (number: Uint256)
        ensures
            number@ == limbs_value(limbs@),
            number.limbs@ == limbs@,
    {
        Uint256 { limbs }
    }

    /// The limbs of the integer, least significant first.
    pub fn into_limbs(self) -> (limbs: [u64; 4])
        ensures
            limbs@ == self.limbs@,
    {
        self.limbs
    }

    /// The 256-bit integer equal to `n`.
    pub fn from_usize(n: usize) -> (number: Uint256)
        ensures
            number@ == n,
    {
        let limbs = limbs_of_usize(n);
        Uint256 { limbs }
    }

    /// The integer as a `usize`, where it fits.
    pub fn to_usize(&self) -> (n: Option<usize>)
        ensures
            match n {
                Some(number) => number == self@,
                None => self@ > usize::MAX,
            },
    {
        usize_of_limbs(&self.limbs)
    }
}

} // verus!
