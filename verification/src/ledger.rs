//! The record of which owner has confirmed which transaction.

use vstd::prelude::*;
use crate::address::Address;
use crate::error::WalletError;

verus! {

/// The confirmations given so far: pairs of a transaction id and an address.
/// A pair is recorded at most once and is never removed.
#[derive(Clone, Debug, PartialEq, Eq)]
pub struct ConfirmationLedger {
    entries: Vec<(usize, Address)>,
}

impl View for ConfirmationLedger {
    type V = Set<(nat, Seq<u8>)>;

    closed spec fn view(&self) -> Set<(nat, Seq<u8>)> {
        Set::new(
            |pair: (nat, Seq<u8>)|
                exists|place: int|
                    0 <= place < self.entries@.len() && self.entries@[place].0 == pair.0
                        && self.entries@[place].1@ == pair.1,
        )
    }
}

impl ConfirmationLedger {
    /// A ledger without confirmations.
    pub fn new() -> (ledger: ConfirmationLedger)
        ensures
            ledger@ == Set::<(nat, Seq<u8>)>::empty(),
    {
        let ledger = ConfirmationLedger { entries: Vec::new() };
        assert(ledger@ =~= Set::<(nat, Seq<u8>)>::empty());
        ledger
    }

    /// Whether `owner` has confirmed the transaction `id`.
    pub fn has_confirmed(&self, id: usize, owner: &Address) -> (found: bool)
        ensures
            found == self@.contains((id as nat, owner@)),
    {
        let mut place: usize = 0;
        while place < self.entries.len()
            invariant
                0 <= place <= self.entries@.len(),
                forall|before: int|
                    0 <= before < place ==> !(self.entries@[before].0 == id
                        && self.entries@[before].1@ == owner@),
            decreases self.entries@.len() - place,
        {
            if self.entries[place].0 == id && self.entries[place].1.same_as(owner) {
                return true;
            }
            place += 1;
        }
        false
    }

    /// Records that `owner` confirms the transaction `id`, unless that is
    /// recorded already.
    pub fn record(&mut self, id: usize, owner: Address) -> (outcome: Result<(), WalletError>)
        ensures
            match outcome {
                Ok(()) => {
                    &&& !old(self)@.contains((id as nat, owner@))
                    &&& final(self)@ == old(self)@.insert((id as nat, owner@))
                },
                Err(error) => {
                    &&& old(self)@.contains((id as nat, owner@))
                    &&& error == WalletError::AlreadyConfirmed
                    &&& *final(self) == *old(self)
                },
            },
    {
        if self.has_confirmed(id, &owner) {
            return Err(WalletError::AlreadyConfirmed);
        }
        self.entries.push((id, owner));
        proof {
            let added = (id as nat, owner@);
            let last = old(self).entries@.len() as int;
            assert(self.entries@[last] == (id, owner));
            assert forall|pair: (nat, Seq<u8>)|
                self@.contains(pair) <==> old(self)@.insert(added).contains(pair) by {
                if self@.contains(pair) {
                    let place = choose|place: int|
                        0 <= place < self.entries@.len() && self.entries@[place].0 == pair.0
                            && self.entries@[place].1@ == pair.1;
                    if place < last {
                        assert(old(self).entries@[place] == self.entries@[place]);
                    }
                }
                if old(self)@.contains(pair) {
                    let place = choose|place: int|
                        0 <= place < old(self).entries@.len() && old(self).entries@[place].0
                            == pair.0 && old(self).entries@[place].1@ == pair.1;
                    assert(self.entries@[place] == old(self).entries@[place]);
                }
            }
            assert(self@ =~= old(self)@.insert(added));
        }
        Ok(())
    }
}

} // verus!
