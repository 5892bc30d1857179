//! The wallet as a mathematical state machine.
//!
//! A state holds the owners, the threshold, the transactions in the order of
//! their submission, the set of confirmations and the notifications sent so
//! far. Each operation either is refused and leaves the state as it is, or
//! moves it to exactly one next state.

use vstd::prelude::*;
use crate::error::WalletError;
use crate::registry::{owners_fit, threshold_fits};

verus! {

/// A proposed transfer.
pub struct TransactionView {
    /// Who receives the transfer.
    pub to: Seq<u8>,
    /// The amount to transfer.
    pub value: nat,
    /// The payload that goes with the transfer.
    pub data: Seq<u8>,
    /// Whether the transfer was executed.
    pub executed: bool,
    /// How many owners have confirmed the transfer.
    pub confirmation_count: nat,
}

/// A notification that a successful operation sends.
pub enum EventView {
    /// An owner proposed a transfer.
    TransactionSubmitted { transaction_id: nat, owner: Seq<u8>, to: Seq<u8>, value: nat },
    /// An owner confirmed a transfer.
    TransactionConfirmed { transaction_id: nat, owner: Seq<u8> },
    /// A transfer was executed.
    TransactionExecuted { transaction_id: nat },
}

/// The state of a wallet.
pub struct WalletView {
    /// The owners, in the order of their registration.
    pub owners: Seq<Seq<u8>>,
    /// The number of confirmations that a transaction needs.
    pub required: nat,
    /// The transactions; the id of a transaction is its place in the sequence.
    pub transactions: Seq<TransactionView>,
    /// The pairs of a transaction id and an owner who confirmed it.
    pub confirmations: Set<(nat, Seq<u8>)>,
    /// The notifications sent so far, oldest first.
    pub events: Seq<EventView>,
}

/// A call that may change a wallet.
pub enum Operation {
    /// `sender` proposes to transfer `value` to `to` with the payload `data`.
    Submit { sender: Seq<u8>, to: Seq<u8>, value: nat, data: Seq<u8> },
    /// `sender` confirms the transaction `id`.
    Confirm { sender: Seq<u8>, id: nat },
    /// Somebody asks to execute the transaction `id`.
    Execute { id: nat },
}

impl WalletView {
    /// The state of a new wallet.
    pub open spec fn initial(owners: Seq<Seq<u8>>, required: nat) -> WalletView {
        WalletView {
            owners,
            required,
            transactions: Seq::empty(),
            confirmations: Set::empty(),
            events: Seq::empty(),
        }
    }

    /// Whether `who` is an owner.
    pub open spec fn is_owner(self, who: Seq<u8>) -> bool {
        self.owners.contains(who)
    }

    /// Whether a transaction with this id was submitted.
    pub open spec fn has_transaction(self, id: nat) -> bool {
        id < self.transactions.len()
    }

    /// Whether `owner` has confirmed the transaction `id`.
    pub open spec fn is_confirmed(self, id: nat, owner: Seq<u8>) -> bool {
        self.confirmations.contains((id, owner))
    }

    /// Those who have confirmed the transaction `id`.
    pub open spec fn confirmers(self, id: nat) -> Set<Seq<u8>> {
        Set::new(|owner: Seq<u8>| self.confirmations.contains((id, owner)))
    }

    /// The count of the transaction `id` is the number of those who confirmed
    /// it, and if the transaction is executed, the count has reached the
    /// threshold.
    pub open spec fn tally_fits(self, id: nat) -> bool {
        let transaction = self.transactions[id as int];
        &&& self.confirmers(id).finite()
        &&& transaction.confirmation_count == self.confirmers(id).len()
        &&& transaction.executed ==> transaction.confirmation_count >= self.required
    }

    /// What holds of every state that a wallet can reach: the owners and the
    /// threshold fit; only owners have confirmed, and only transactions that
    /// exist; the confirmation count of each transaction is the number of
    /// owners who confirmed it; an executed transaction has reached the
    /// threshold.
    pub open spec fn wf(self) -> bool {
        &&& owners_fit(self.owners)
        &&& threshold_fits(self.owners.len(), self.required)
        &&& forall|id: nat, owner: Seq<u8>| #[trigger]
            self.confirmations.contains((id, owner)) ==> self.has_transaction(id)
                && self.is_owner(owner)
        &&& forall|id: nat| #[trigger] self.has_transaction(id) ==> self.tally_fits(id)
    }

    /// Why `sender` may not submit a transaction, if it may not.
    pub open spec fn submit_error(self, sender: Seq<u8>) -> Option<WalletError> {
        if !self.is_owner(sender) {
            Some(WalletError::Unauthorized)
        } else {
            None
        }
    }

    /// The state after `sender` has submitted a transaction. The new
    /// transaction gets the next id, is not executed and has no confirmation.
    pub open spec fn submitted(
        self,
        sender: Seq<u8>,
        to: Seq<u8>,
        value: nat,
        data: Seq<u8>,
    ) -> WalletView {
        WalletView {
            transactions: self.transactions.push(
                TransactionView { to, value, data, executed: false, confirmation_count: 0 },
            ),
            events: self.events.push(
                EventView::TransactionSubmitted {
                    transaction_id: self.transactions.len(),
                    owner: sender,
                    to,
                    value,
                },
            ),
            ..self
        }
    }

    /// Why `sender` may not confirm the transaction `id`, if it may not.
    pub open spec fn confirm_error(self, sender: Seq<u8>, id: nat) -> Option<WalletError> {
        if !self.is_owner(sender) {
            Some(WalletError::Unauthorized)
        } else if !self.has_transaction(id) {
            Some(WalletError::NotFound)
        } else if self.transactions[id as int].executed {
            Some(WalletError::AlreadyExecuted)
        } else if self.is_confirmed(id, sender) {
            Some(WalletError::AlreadyConfirmed)
        } else {
            None
        }
    }

    /// The state after `sender` has confirmed the transaction `id`: the
    /// confirmation is recorded and the transaction's count is one higher.
    pub open spec fn confirmed(self, sender: Seq<u8>, id: nat) -> WalletView {
        let before = self.transactions[id as int];
        WalletView {
            transactions: self.transactions.update(
                id as int,
                TransactionView { confirmation_count: before.confirmation_count + 1, ..before },
            ),
            confirmations: self.confirmations.insert((id, sender)),
            events: self.events.push(
                EventView::TransactionConfirmed { transaction_id: id, owner: sender },
            ),
            ..self
        }
    }

    /// Why the transaction `id` may not be executed, if it may not.
    pub open spec fn execute_error(self, id: nat) -> Option<WalletError> {
        if !self.has_transaction(id) {
            Some(WalletError::NotFound)
        } else if self.transactions[id as int].executed {
            Some(WalletError::AlreadyExecuted)
        } else if self.transactions[id as int].confirmation_count < self.required {
            Some(WalletError::InsufficientConfirmations)
        } else {
            None
        }
    }

    /// The state after the transaction `id` has been executed.
    pub open spec fn executed(self, id: nat) -> WalletView {
        let before = self.transactions[id as int];
        WalletView {
            transactions: self.transactions.update(
                id as int,
                TransactionView { executed: true, ..before },
            ),
            events: self.events.push(EventView::TransactionExecuted { transaction_id: id }),
            ..self
        }
    }

    /// Why `operation` is refused in this state, if it is.
    pub open spec fn refusal(self, operation: Operation) -> Option<WalletError> {
        match operation {
            Operation::Submit { sender, .. } => self.submit_error(sender),
            Operation::Confirm { sender, id } => self.confirm_error(sender, id),
            Operation::Execute { id } => self.execute_error(id),
        }
    }

    /// The state after `operation`: this state where the operation is refused.
    pub open spec fn apply(self, operation: Operation) -> WalletView {
        if self.refusal(operation).is_some() {
            self
        } else {
            match operation {
                Operation::Submit { sender, to, value, data } => self.submitted(
                    sender,
                    to,
                    value,
                    data,
                ),
                Operation::Confirm { sender, id } => self.confirmed(sender, id),
                Operation::Execute { id } => self.executed(id),
            }
        }
    }

    /// The state after the operations of `operations`, one after the other.
    pub open spec fn run(self, operations: Seq<Operation>) -> WalletView
        decreases operations.len(),
    {
        if operations.len() == 0 {
            self
        } else {
            self.run(operations.drop_last()).apply(operations.last())
        }
    }
}

} // verus!
