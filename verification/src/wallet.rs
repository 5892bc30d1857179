//! The wallet: owners, transactions, confirmations and notifications as one
//! value, and the operations that change it.

use vstd::prelude::*;
use crate::address::Address;
use crate::error::WalletError;
use crate::laws::{
    lemma_confirmed_wf,
    lemma_confirmers_are_owners,
    lemma_executed_wf,
    lemma_initial_wf,
    lemma_submitted_wf,
};
use crate::ledger::ConfirmationLedger;
use crate::model::{EventView, WalletView};
use crate::registry::{
    address_views,
    lemma_setup_accepts,
    owners_fit,
    setup_error,
    threshold_fits,
    OwnerRegistry,
};
use crate::store::TransactionStore;
use crate::uint::Uint256;

verus! {

/// A notification that a successful operation sends.
#[derive(Clone, Copy, Debug, PartialEq, Eq)]
pub enum Event {
    /// An owner proposed a transfer.
    TransactionSubmitted { transaction_id: Uint256, owner: Address, to: Address, value: Uint256 },
    /// An owner confirmed a transfer.
    TransactionConfirmed { transaction_id: Uint256, owner: Address },
    /// A transfer was executed.
    TransactionExecuted { transaction_id: Uint256 },
}

impl View for Event {
    type V = EventView;

    open spec fn view(&self) -> EventView {
        match *self {
            Event::TransactionSubmitted { transaction_id, owner, to, value } => {
                EventView::TransactionSubmitted {
                    transaction_id: transaction_id@,
                    owner: owner@,
                    to: to@,
                    value: value@,
                }
            },
            Event::TransactionConfirmed { transaction_id, owner } => {
                EventView::TransactionConfirmed { transaction_id: transaction_id@, owner: owner@ }
            },
            Event::TransactionExecuted { transaction_id } => {
                EventView::TransactionExecuted { transaction_id: transaction_id@ }
            },
        }
    }
}

/// The notifications of a sequence of events, in the same order.
pub open spec fn event_views(events: Seq<Event>) -> Seq<EventView> {
    events.map_values(|event: Event| event@)
}

/// A wallet that several owners hold together.
#[derive(Clone, Debug, PartialEq, Eq)]
pub struct MultiSigWallet {
    registry: OwnerRegistry,
    store: TransactionStore,
    ledger: ConfirmationLedger,
    events: Vec<Event>,
}

impl View for MultiSigWallet {
    type V = WalletView;

    closed spec fn view(&self) -> WalletView {
        WalletView {
            owners: self.registry.owners(),
            required: self.registry.required(),
            transactions: self.store@,
            confirmations: self.ledger@,
            events: event_views(self.events@),
        }
    }
}

impl MultiSigWallet {
    /// The wallet's state is one that a wallet can reach.
    pub open spec fn wf(&self) -> bool {
        self@.wf()
    }

    /// A wallet with the given owners, of whom `required` must confirm a
    /// transaction before it can be executed. The wallet is refused if there
    /// is no owner, if `required` is zero or more than the number of owners,
    /// or if an owner is the null address or is listed twice; otherwise it is
    /// made, without transactions.
    pub fn new(owners: Vec<Address>, required: Uint256) -> (outcome: Result<
        MultiSigWallet,
        WalletError,
    >)
        ensures
            outcome.is_ok() <==> owners_fit(address_views(owners@)) && threshold_fits(
                owners@.len(),
                required@,
            ),
            match outcome {
                Ok(wallet) => {
                    &&& wallet@ == WalletView::initial(address_views(owners@), required@)
                    &&& wallet.wf()
                },
                Err(error) => setup_error(address_views(owners@), required@) == Some(error),
            },
    {
        proof {
            lemma_setup_accepts(address_views(owners@), required@);
        }
        let registry = match OwnerRegistry::initialize(owners, required) {
            Ok(registry) => registry,
            Err(error) => {
                return Err(error);
            },
        };
        let store = TransactionStore::new();
        let ledger = ConfirmationLedger::new();
        let wallet = MultiSigWallet { registry, store, ledger, events: Vec::new() };
        proof {
            assert(event_views(wallet.events@) =~= Seq::<EventView>::empty());
            lemma_initial_wf(address_views(owners@), required@);
        }
        Ok(wallet)
    }

    /// Stores a transaction that `sender` proposes and returns its id, the
    /// number of transactions submitted before. Only an owner may propose.
    pub fn submit_transaction(
        &mut self,
        sender: Address,
        to: Address,
        value: Uint256,
        data: Vec<u8>,
    ) -> (outcome: Result<Uint256, WalletError>)
        requires
            old(self).wf(),
        ensures
            final(self).wf(),
            match outcome {
                Ok(id) => {
                    &&& old(self)@.submit_error(sender@).is_none()
                    &&& id@ == old(self)@.transactions.len()
                    &&& final(self)@ == old(self)@.submitted(sender@, to@, value@, data@)
                },
                Err(error) => {
                    &&& old(self)@.submit_error(sender@) == Some(error)
                    &&& *final(self) == *old(self)
                },
            },
    {
        let index = match self.store.submit(&self.registry, &sender, to, value, data) {
            Ok(index) => index,
            Err(error) => {
                return Err(error);
            },
        };
        let id = Uint256::from_usize(index);
        self.events.push(
            Event::TransactionSubmitted { transaction_id: id, owner: sender, to, value },
        );
        proof {
            let next = old(self)@.submitted(sender@, to@, value@, data@);
            assert(self@.events =~= next.events);
            lemma_submitted_wf(old(self)@, sender@, to@, value@, data@);
        }
        Ok(id)
    }

    /// Records that `sender` confirms the transaction `tx_id` and counts the
    /// confirmation. Only an owner may confirm, only a transaction that exists
    /// and is not executed, and only once.
    pub fn confirm_transaction(&mut self, sender: Address, tx_id: Uint256) -> (outcome: Result<
        (),
        WalletError,
    >)
        requires
            old(self).wf(),
        ensures
            final(self).wf(),
            match outcome {
                Ok(()) => {
                    &&& old(self)@.confirm_error(sender@, tx_id@).is_none()
                    &&& final(self)@ == old(self)@.confirmed(sender@, tx_id@)
                },
                Err(error) => {
                    &&& old(self)@.confirm_error(sender@, tx_id@) == Some(error)
                    &&& *final(self) == *old(self)
                },
            },
    {
        if !self.registry.is_owner(&sender) {
            return Err(WalletError::Unauthorized);
        }
        let index = match self.index_of(tx_id) {
            Some(index) => index,
            None => {
                return Err(WalletError::NotFound);
            },
        };
        let executed = match self.store.get(index) {
            Ok(transaction) => transaction.executed,
            Err(error) => {
                return Err(error);
            },
        };
        if executed {
            return Err(WalletError::AlreadyExecuted);
        }
        match self.ledger.record(index, sender) {
            Ok(()) => {},
            Err(error) => {
                return Err(error);
            },
        }
        let owner_count = self.registry.owner_count();
        proof {
            lemma_confirmers_are_owners(old(self)@, tx_id@);
        }
        self.store.increment_confirmation_count(index);
        self.events.push(Event::TransactionConfirmed { transaction_id: tx_id, owner: sender });
        proof {
            let next = old(self)@.confirmed(sender@, tx_id@);
            assert(self@.events =~= next.events);
            lemma_confirmed_wf(old(self)@, sender@, tx_id@);
        }
        Ok(())
    }

    /// Marks the transaction `tx_id` as executed. Only a transaction that
    /// exists, is not executed and has as many confirmations as are required
    /// can be executed.
    pub fn execute_transaction(&mut self, tx_id: Uint256) -> (outcome: Result<(), WalletError>)
        requires
            old(self).wf(),
        ensures
            final(self).wf(),
            match outcome {
                Ok(()) => {
                    &&& old(self)@.execute_error(tx_id@).is_none()
                    &&& final(self)@ == old(self)@.executed(tx_id@)
                },
                Err(error) => {
                    &&& old(self)@.execute_error(tx_id@) == Some(error)
                    &&& *final(self) == *old(self)
                },
            },
    {
        let index = match self.index_of(tx_id) {
            Some(index) => index,
            None => {
                return Err(WalletError::NotFound);
            },
        };
        let (executed, count) = match self.store.get(index) {
            Ok(transaction) => (transaction.executed, transaction.confirmation_count),
            Err(error) => {
                return Err(error);
            },
        };
        if executed {
            return Err(WalletError::AlreadyExecuted);
        }
        if count < self.registry.required_confirmations() {
            return Err(WalletError::InsufficientConfirmations);
        }
        self.store.mark_executed(index);
        self.events.push(Event::TransactionExecuted { transaction_id: tx_id });
        proof {
            let next = old(self)@.executed(tx_id@);
            assert(self@.events =~= next.events);
            lemma_executed_wf(old(self)@, tx_id@);
        }
        Ok(())
    }

    /// The place of the transaction `tx_id` in the store, if there is such a
    /// transaction.
    fn index_of(&self, tx_id: Uint256) -> (place: Option<usize>)
        ensures
            match place {
                Some(index) => self@.has_transaction(tx_id@) && index == tx_id@,
                None => !self@.has_transaction(tx_id@),
            },
    {
        let count = self.store.len();
        match tx_id.to_usize() {
            Some(index) => {
                if index < count {
                    Some(index)
                } else {
                    None
                }
            },
            None => None,
        }
    }

    /// The receiver, amount, payload, executed flag and confirmation count of
    /// the transaction `tx_id`.
    pub fn get_transaction(&self, tx_id: Uint256) -> (outcome: Result<
        (Address, Uint256, Vec<u8>, bool, Uint256),
        WalletError,
    >)
        ensures
            match outcome {
                Ok(details) => {
                    &&& self@.has_transaction(tx_id@)
                    &&& details.0@ == self@.transactions[tx_id@ as int].to
                    &&& details.1@ == self@.transactions[tx_id@ as int].value
                    &&& details.2@ == self@.transactions[tx_id@ as int].data
                    &&& details.3 == self@.transactions[tx_id@ as int].executed
                    &&& details.4@ == self@.transactions[tx_id@ as int].confirmation_count
                },
                Err(error) => !self@.has_transaction(tx_id@) && error == WalletError::NotFound,
            },
    {
        let index = match self.index_of(tx_id) {
            Some(index) => index,
            None => {
                return Err(WalletError::NotFound);
            },
        };
        match self.store.get(index) {
            Ok(transaction) => {
                let data = transaction.data.clone();
                assert(data@ =~= transaction.data@);
                Ok(
                    (
                        transaction.to,
                        transaction.value,
                        data,
                        transaction.executed,
                        Uint256::from_usize(transaction.confirmation_count),
                    ),
                )
            },
            Err(error) => Err(error),
        }
    }

    /// Whether `owner` has confirmed the transaction `tx_id`.
    pub fn is_confirmed(&self, tx_id: Uint256, owner: Address) -> (outcome: Result<
        bool,
        WalletError,
    >)
        ensures
            match outcome {
                Ok(confirmed) => {
                    &&& self@.has_transaction(tx_id@)
                    &&& confirmed == self@.is_confirmed(tx_id@, owner@)
                },
                Err(error) => !self@.has_transaction(tx_id@) && error == WalletError::NotFound,
            },
    {
        match self.index_of(tx_id) {
            Some(index) => Ok(self.ledger.has_confirmed(index, &owner)),
            None => Err(WalletError::NotFound),
        }
    }

    /// The number of owners who have confirmed the transaction `tx_id`.
    pub fn get_confirmation_count(&self, tx_id: Uint256) -> (outcome: Result<Uint256, WalletError>)
        ensures
            match outcome {
                Ok(count) => {
                    &&& self@.has_transaction(tx_id@)
                    &&& count@ == self@.transactions[tx_id@ as int].confirmation_count
                },
                Err(error) => !self@.has_transaction(tx_id@) && error == WalletError::NotFound,
            },
    {
        let index = match self.index_of(tx_id) {
            Some(index) => index,
            None => {
                return Err(WalletError::NotFound);
            },
        };
        match self.store.get(index) {
            Ok(transaction) => Ok(Uint256::from_usize(transaction.confirmation_count)),
            Err(error) => Err(error),
        }
    }

    /// The number of confirmations that a transaction needs.
    pub fn get_required_confirmations(&self) -> (required: Uint256)
        ensures
            required@ == self@.required,
    {
        Uint256::from_usize(self.registry.required_confirmations())
    }

    /// The number of transactions ever submitted.
    pub fn get_transaction_count(&self) -> (count: Uint256)
        ensures
            count@ == self@.transactions.len(),
    {
        Uint256::from_usize(self.store.len())
    }

    /// The number of owners.
    pub fn get_owner_count(&self) -> (count: Uint256)
        ensures
            count@ == self@.owners.len(),
    {
        Uint256::from_usize(self.registry.owner_count())
    }

    /// Whether `addr` is an owner.
    pub fn is_owner(&self, addr: Address) -> (found: bool)
        ensures
            found == self@.is_owner(addr@),
    {
        self.registry.is_owner(&addr)
    }

    /// The notifications sent so far, oldest first.
    pub fn events(&self) -> (events: &Vec<Event>)
        ensures
            event_views(events@) == self@.events,
    {
        &self.events
    }
}

} // verus!
