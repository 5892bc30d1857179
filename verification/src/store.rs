//! The transactions of a wallet, in the order of their submission.

use vstd::prelude::*;
use crate::address::Address;
use crate::error::WalletError;
use crate::model::TransactionView;
use crate::registry::OwnerRegistry;
use crate::uint::Uint256;

verus! {

/// A proposed transfer.
#[derive(Clone, Debug, PartialEq, Eq)]
pub struct Transaction {
    /// Who receives the transfer.
    pub to: Address,
    /// The amount to transfer.
    pub value: Uint256,
    /// The payload that goes with the transfer.
    pub data: Vec<u8>,
    /// Whether the transfer was executed.
    pub executed: bool,
    /// How many owners have confirmed the transfer.
    pub confirmation_count: usize,
}

impl View for Transaction {
    type V = TransactionView;

    open spec fn view(&self) -> TransactionView {
        TransactionView {
            to: self.to@,
            value: self.value@,
            data: self.data@,
            executed: self.executed,
            confirmation_count: self.confirmation_count as nat,
        }
    }
}

/// The transactions ever submitted. The id of a transaction is its place in
/// the store; no transaction is ever removed.
#[derive(Clone, Debug, PartialEq, Eq)]
pub struct TransactionStore {
    transactions: Vec<Transaction>,
}

impl View for TransactionStore {
    type V = Seq<TransactionView>;

    closed spec fn view(&self) -> Seq<TransactionView> {
        self.transactions@.map_values(|transaction: Transaction| transaction@)
    }
}

impl TransactionStore {
    /// A store without transactions.
    pub fn new() -> (store: TransactionStore)
        ensures
            store@ == Seq::<TransactionView>::empty(),
    {
        let store = TransactionStore { transactions: Vec::new() };
        assert(store@ =~= Seq::<TransactionView>::empty());
        store
    }

    /// The number of transactions ever submitted, which is the next id.
    pub fn len(&self) -> (count: usize)
        ensures
            count == self@.len(),
    {
        self.transactions.len()
    }

    /// Stores a new transaction for `proposer`, who must be an owner, and
    /// returns its id.
    pub fn submit(
        &mut self,
        registry: &OwnerRegistry,
        proposer: &Address,
        to: Address,
        value: Uint256,
        data: Vec<u8>,
    ) -> (outcome: Result<usize, WalletError>)
        ensures
            match outcome {
                Ok(id) => {
                    &&& registry.owners().contains(proposer@)
                    &&& id == old(self)@.len()
                    &&& final(self)@ == old(self)@.push(
                        TransactionView {
                            to: to@,
                            value: value@,
                            data: data@,
                            executed: false,
                            confirmation_count: 0,
                        },
                    )
                },
                Err(error) => {
                    &&& !registry.owners().contains(proposer@)
                    &&& error == WalletError::Unauthorized
                    &&& *final(self) == *old(self)
                },
            },
    {
        if !registry.is_owner(proposer) {
            return Err(WalletError::Unauthorized);
        }
        let id = self.transactions.len();
        let transaction = Transaction { to, value, data, executed: false, confirmation_count: 0 };
        self.transactions.push(transaction);
        assert(self@ =~= old(self)@.push(transaction@));
        Ok(id)
    }

    /// The transaction with the given id.
    pub fn get(&self, id: usize) -> (outcome: Result<&Transaction, WalletError>)
        ensures
            match outcome {
                Ok(transaction) => id < self@.len() && transaction@ == self@[id as int],
                Err(error) => id >= self@.len() && error == WalletError::NotFound,
            },
    {
        if id < self.transactions.len() {
            Ok(&self.transactions[id])
        } else {
            Err(WalletError::NotFound)
        }
    }

    /// Marks the transaction `id` as executed.
    pub fn mark_executed(&mut self, id: usize)
        requires
            id < old(self)@.len(),
        ensures
            final(self)@ == old(self)@.update(
                id as int,
                TransactionView { executed: true, ..old(self)@[id as int] },
            ),
    {
        self.transactions[id].executed = true;
        assert(self@ =~= old(self)@.update(
            id as int,
            TransactionView { executed: true, ..old(self)@[id as int] },
        ));
    }

    /// Counts one more confirmation of the transaction `id`.
    pub fn increment_confirmation_count(&mut self, id: usize)
        requires
            id < old(self)@.len(),
            old(self)@[id as int].confirmation_count < usize::MAX,
        ensures
            final(self)@ == old(self)@.update(
                id as int,
                TransactionView {
                    confirmation_count: old(self)@[id as int].confirmation_count + 1,
                    ..old(self)@[id as int]
                },
            ),
    {
        let count = self.transactions[id].confirmation_count;
        self.transactions[id].confirmation_count = count + 1;
        assert(self@ =~= old(self)@.update(
            id as int,
            TransactionView {
                confirmation_count: old(self)@[id as int].confirmation_count + 1,
                ..old(self)@[id as int]
            },
        ));
    }
}

} // verus!
