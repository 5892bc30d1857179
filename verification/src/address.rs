//! Twenty-byte account identifiers.

use vstd::prelude::*;

verus! {

/// An account identifier: twenty bytes.
#[derive(Clone, Copy, Debug, PartialEq, Eq)]
pub struct Address {
    pub bytes: [u8; 20],
}

impl View for Address {
    type V = Seq<u8>;

    open spec fn view(&self) -> Seq<u8> {
        self.bytes@
    }
}

/// True when every byte of `bytes` is zero.
pub open spec fn all_zero(bytes: Seq<u8>) -> bool {
    forall|i: int| 0 <= i < bytes.len() ==> bytes[i] == 0
}

/// Calls `alloy_primitives::Address::is_zero` on the address that
/// `alloy_primitives::Address::new` makes of `bytes`. The outside function
/// compares the twenty bytes with the all-zero constant, so the result is
/// true exactly when each byte is zero.
#[verifier::external_body]
fn bytes_are_zero(bytes: &[u8; 20]) -> (zero: bool)
    ensures
        zero == all_zero(bytes@),
{
    alloy_primitives::Address::new(*bytes).is_zero()
}

/// Compares the addresses that `alloy_primitives::Address::new` makes of
/// `left` and of `right` with the `==` of `alloy_primitives::Address`, which
/// is the derived comparison of the two byte arrays: true exactly when the
/// arrays hold the same bytes.
#[verifier::external_body]
fn bytes_are_equal(left: &[u8; 20], right: &[u8; 20]) -> (equal: bool)
    ensures
        equal == (left@ == right@),
{
    alloy_primitives::Address::new(*left) == alloy_primitives::Address::new(*right)
}

impl Address {
    /// The address that holds `bytes`.
    pub fn new(bytes: [u8; 20]) -> (address: Address)
        ensures
            address@ == bytes@,
    {
        Address { bytes }
    }

    /// The bytes of the address.
    pub fn into_array(self) -> (bytes: [u8; 20])
        ensures
            bytes@ == self@,
    {
        self.bytes
    }

    /// Whether this is the null address.
    pub fn is_zero(&self) -> (zero: bool)
        ensures
            zero == all_zero(self@),
    {
        bytes_are_zero(&self.bytes)
    }

    /// Whether the two addresses hold the same bytes.
    pub fn same_as(&self, other: &Address) -> (same: bool)
        ensures
            same == (self@ == other@),
    {
        bytes_are_equal(&self.bytes, &other.bytes)
    }
}

} // verus!
