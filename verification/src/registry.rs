//! The fixed set of owners and the number of confirmations that they require.

use vstd::prelude::*;
use crate::address::{all_zero, Address};
use crate::error::WalletError;
use crate::uint::Uint256;

verus! {

/// The byte strings of a sequence of addresses, in the same order.
pub open spec fn address_views(addresses: Seq<Address>) -> Seq<Seq<u8>> {
    addresses.map_values(|address: Address| address@)
}

/// The candidate at `index` is the null address, or repeats an earlier candidate.
pub open spec fn offends(owners: Seq<Seq<u8>>, index: int) -> bool {
    all_zero(owners[index]) || exists|earlier: int|
        0 <= earlier < index && owners[earlier] == owners[index]
}

/// The candidate at `index` offends, and none before it does.
pub open spec fn first_offender(owners: Seq<Seq<u8>>, index: int) -> bool {
    &&& 0 <= index < owners.len()
    &&& offends(owners, index)
    &&& forall|before: int| 0 <= before < index ==> !offends(owners, before)
}

/// The threshold is positive and no larger than the number of owners.
pub open spec fn threshold_fits(owner_count: nat, required: nat) -> bool {
    1 <= required <= owner_count
}

/// The candidates are at least one, none is the null address and none repeats.
pub open spec fn owners_fit(owners: Seq<Seq<u8>>) -> bool {
    &&& owners.len() >= 1
    &&& forall|index: int| 0 <= index < owners.len() ==> !all_zero(#[trigger] owners[index])
    &&& owners.no_duplicates()
}

/// Why a wallet cannot be set up with these owners and this threshold, if it
/// cannot. The checks come in this order: the list is empty; the threshold
/// does not fit; the first candidate that offends is the null address, or else
/// repeats an earlier one.
pub open spec fn setup_error(owners: Seq<Seq<u8>>, required: nat) -> Option<WalletError> {
    if owners.len() == 0 {
        Some(WalletError::EmptyOwnerSet)
    } else if !threshold_fits(owners.len(), required) {
        Some(WalletError::InvalidThreshold)
    } else if exists|index: int| first_offender(owners, index) {
        let index = choose|index: int| first_offender(owners, index);
        if all_zero(owners[index]) {
            Some(WalletError::ZeroAddress)
        } else {
            Some(WalletError::DuplicateOwner)
        }
    } else {
        None
    }
}

/// Two first offenders are the same candidate.
pub proof fn lemma_first_offender_unique(owners: Seq<Seq<u8>>, one: int, other: int)
    requires
        first_offender(owners, one),
        first_offender(owners, other),
    ensures
        one == other,
{
}

/// A set-up is accepted exactly when the owners and the threshold fit.
pub proof fn lemma_setup_accepts(owners: Seq<Seq<u8>>, required: nat)
    ensures
        setup_error(owners, required).is_none() <==> owners_fit(owners) && threshold_fits(
            owners.len(),
            required,
        ),
{
    if owners.len() > 0 && threshold_fits(owners.len(), required) {
        if exists|index: int| first_offender(owners, index) {
            let index = choose|index: int| first_offender(owners, index);
            if all_zero(owners[index]) {
                assert(!owners_fit(owners));
            } else {
                let earlier = choose|earlier: int|
                    0 <= earlier < index && owners[earlier] == owners[index];
                assert(owners[earlier] == owners[index]);
                assert(!owners.no_duplicates());
            }
        } else {
            lemma_no_offender(owners, owners.len() as int);
            assert forall|index: int| 0 <= index < owners.len() implies !all_zero(
                #[trigger] owners[index],
            ) by {
                assert(!offends(owners, index));
            }
            assert forall|i: int, j: int|
                0 <= i < owners.len() && 0 <= j < owners.len() && i != j implies owners[i]
                != owners[j] by {
                if i < j {
                    assert(!offends(owners, j));
                } else {
                    assert(!offends(owners, i));
                }
            }
        }
    }
}

/// Where no candidate is a first offender, no candidate below `bound` offends.
pub proof fn lemma_no_offender(owners: Seq<Seq<u8>>, bound: int)
    requires
        0 <= bound <= owners.len(),
        !exists|index: int| first_offender(owners, index),
    ensures
        forall|index: int| 0 <= index < bound ==> !offends(owners, index),
    decreases bound,
{
    if bound > 0 {
        lemma_no_offender(owners, bound - 1);
        if offends(owners, bound - 1) {
            assert(first_offender(owners, bound - 1));
        }
    }
}

/// The owners of a wallet, and how many of them must confirm a transaction.
#[derive(Clone, Debug, PartialEq, Eq)]
pub struct OwnerRegistry {
    owners: Vec<Address>,
    required: usize,
}

impl OwnerRegistry {
    /// The owners, in the order in which they were registered.
    pub closed spec fn owners(&self) -> Seq<Seq<u8>> {
        address_views(self.owners@)
    }

    /// The number of confirmations that a transaction needs.
    pub closed spec fn required(&self) -> nat {
        self.required as nat
    }

    /// There is an owner, no owner is the null address, none is listed twice,
    /// and the threshold is between one and the number of owners.
    pub open spec fn wf(&self) -> bool {
        &&& owners_fit(self.owners())
        &&& threshold_fits(self.owners().len(), self.required())
    }

    /// Registers `owners` with the threshold `required`, or says why not.
    pub fn initialize(owners: Vec<Address>, required: Uint256) -> (outcome: Result<
        OwnerRegistry,
        WalletError,
    >)
        ensures
            match outcome {
                Ok(registry) => {
                    &&& setup_error(address_views(owners@), required@).is_none()
                    &&& registry.wf()
                    &&& registry.owners() == address_views(owners@)
                    &&& registry.required() == required@
                },
                Err(error) => setup_error(address_views(owners@), required@) == Some(error),
            },
    {
        let ghost candidates = address_views(owners@);
        let count = owners.len();
        if count == 0 {
            return Err(WalletError::EmptyOwnerSet);
        }
        let threshold = match required.to_usize() {
            Some(threshold) => threshold,
            None => {
                return Err(WalletError::InvalidThreshold);
            },
        };
        if threshold == 0 || threshold > count {
            return Err(WalletError::InvalidThreshold);
        }
        let mut index: usize = 0;
        while index < count
            invariant
                count == owners.len(),
                candidates == address_views(owners@),
                threshold_fits(candidates.len(), required@),
                threshold == required@,
                0 <= index <= count,
                forall|before: int| 0 <= before < index ==> !offends(candidates, before),
            decreases count - index,
        {
            let candidate = &owners[index];
            assert(candidates[index as int] == candidate@);
            if candidate.is_zero() {
                proof {
                    assert(first_offender(candidates, index as int));
                    lemma_first_offender_unique(
                        candidates,
                        index as int,
                        choose|i: int| first_offender(candidates, i),
                    );
                }
                return Err(WalletError::ZeroAddress);
            }
            let earlier = position_of(&owners, index, candidate);
            if earlier.is_some() {
                proof {
                    let place = earlier.unwrap() as int;
                    assert(candidates[place] == candidates[index as int]);
                    assert(first_offender(candidates, index as int));
                    lemma_first_offender_unique(
                        candidates,
                        index as int,
                        choose|i: int| first_offender(candidates, i),
                    );
                }
                return Err(WalletError::DuplicateOwner);
            }
            proof {
                assert forall|place: int| 0 <= place < index implies candidates[place]
                    != candidates[index as int] by {
                    assert(owners[place]@ != candidate@);
                }
            }
            index += 1;
        }
        proof {
            lemma_setup_accepts(candidates, required@);
        }
        Ok(OwnerRegistry { owners, required: threshold })
    }

    /// Whether `address` is an owner.
    pub fn is_owner(&self, address: &Address) -> (found: bool)
        ensures
            found == self.owners().contains(address@),
    {
        let place = position_of(&self.owners, self.owners.len(), address);
        proof {
            let owners = self.owners();
            match place {
                Some(index) => {
                    assert(owners[index as int] == address@);
                },
                None => {
                    assert forall|index: int| 0 <= index < owners.len() implies owners[index]
                        != address@ by {
                        assert(self.owners[index]@ != address@);
                    }
                },
            }
        }
        place.is_some()
    }

    /// The number of owners.
    pub fn owner_count(&self) -> (count: usize)
        ensures
            count == self.owners().len(),
    {
        self.owners.len()
    }

    /// The number of confirmations that a transaction needs.
    pub fn required_confirmations(&self) -> (required: usize)
        ensures
            required == self.required(),
    {
        self.required
    }
}

/// The first place below `bound` at which `addresses` holds `wanted`.
pub fn position_of(addresses: &Vec<Address>, bound: usize, wanted: &Address) -> (place: Option<
    usize,
>)
    requires
        bound <= addresses.len(),
    ensures
        match place {
            Some(index) => {
                &&& index < bound
                &&& addresses[index as int]@ == wanted@
                &&& forall|before: int| 0 <= before < index ==> addresses[before]@ != wanted@
            },
            None => forall|index: int| 0 <= index < bound ==> addresses[index]@ != wanted@,
        },
{
    let mut index: usize = 0;
    while index < bound
        invariant
            0 <= index <= bound <= addresses.len(),
            forall|before: int| 0 <= before < index ==> addresses[before]@ != wanted@,
        decreases bound - index,
    {
        if addresses[index].same_as(wanted) {
            return Some(index);
        }
        index += 1;
    }
    None
}

} // verus!
