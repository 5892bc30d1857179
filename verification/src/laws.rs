//! What holds of a wallet whatever is done with it.

use vstd::prelude::*;
use vstd::set_lib::lemma_len_subset;
use crate::error::WalletError;
use crate::model::{Operation, WalletView};
use crate::registry::{owners_fit, threshold_fits};

verus! {

/// A new wallet whose owners and threshold fit is well formed.
pub proof fn lemma_initial_wf(owners: Seq<Seq<u8>>, required: nat)
    requires
        owners_fit(owners),
        threshold_fits(owners.len(), required),
    ensures
        WalletView::initial(owners, required).wf(),
{
}

/// In a well-formed wallet, those who confirmed a transaction are owners, and
/// fewer than all owners have confirmed while one of them has not.
pub proof fn lemma_confirmers_are_owners(wallet: WalletView, id: nat)
    requires
        wallet.wf(),
        wallet.has_transaction(id),
    ensures
        wallet.confirmers(id).subset_of(wallet.owners.to_set()),
        wallet.confirmers(id).len() <= wallet.owners.len(),
        forall|owner: Seq<u8>|
            wallet.is_owner(owner) && !wallet.is_confirmed(id, owner)
                ==> wallet.confirmers(id).len() < wallet.owners.len(),
{
    let confirmers = wallet.confirmers(id);
    let owners = wallet.owners.to_set();
    assert forall|owner: Seq<u8>| confirmers.contains(owner) implies owners.contains(owner) by {
        assert(wallet.confirmations.contains((id, owner)));
    }
    wallet.owners.unique_seq_to_set();
    lemma_len_subset(confirmers, owners);
    assert forall|owner: Seq<u8>|
        wallet.is_owner(owner) && !wallet.is_confirmed(id, owner) implies confirmers.len()
        < wallet.owners.len() by {
        let more = confirmers.insert(owner);
        assert(more.subset_of(owners));
        lemma_len_subset(more, owners);
    }
}

/// A submission leads from a well-formed wallet to a well-formed wallet.
pub proof fn lemma_submitted_wf(
    wallet: WalletView,
    sender: Seq<u8>,
    to: Seq<u8>,
    value: nat,
    data: Seq<u8>,
)
    requires
        wallet.wf(),
    ensures
        wallet.submitted(sender, to, value, data).wf(),
{
    let next = wallet.submitted(sender, to, value, data);
    let new_id = wallet.transactions.len();
    assert forall|id: nat| #[trigger] next.has_transaction(id) implies next.tally_fits(id) by {
        if id == new_id {
            assert forall|owner: Seq<u8>| !next.confirmers(id).contains(owner) by {
                if wallet.confirmations.contains((id, owner)) {
                    assert(wallet.has_transaction(id));
                }
            }
            assert(next.confirmers(id) =~= Set::<Seq<u8>>::empty());
        } else {
            assert(wallet.has_transaction(id));
            assert(next.confirmers(id) =~= wallet.confirmers(id));
        }
    }
}

/// A confirmation that is not refused leads from a well-formed wallet to a
/// well-formed wallet.
pub proof fn lemma_confirmed_wf(wallet: WalletView, sender: Seq<u8>, id: nat)
    requires
        wallet.wf(),
        wallet.confirm_error(sender, id).is_none(),
    ensures
        wallet.confirmed(sender, id).wf(),
{
    let next = wallet.confirmed(sender, id);
    assert forall|other: nat, owner: Seq<u8>| #[trigger]
        next.confirmations.contains((other, owner)) implies next.has_transaction(other)
        && next.is_owner(owner) by {
        if (other, owner) != (id, sender) {
            assert(wallet.confirmations.contains((other, owner)));
        }
    }
    assert forall|other: nat| #[trigger]
        next.has_transaction(other) implies next.tally_fits(other) by {
        assert(wallet.has_transaction(other));
        if other == id {
            assert(next.confirmers(other) =~= wallet.confirmers(other).insert(sender));
            assert(!wallet.confirmers(other).contains(sender));
        } else {
            assert(next.confirmers(other) =~= wallet.confirmers(other));
        }
    }
}

/// An execution that is not refused leads from a well-formed wallet to a
/// well-formed wallet.
pub proof fn lemma_executed_wf(wallet: WalletView, id: nat)
    requires
        wallet.wf(),
        wallet.execute_error(id).is_none(),
    ensures
        wallet.executed(id).wf(),
{
    let next = wallet.executed(id);
    assert forall|other: nat, owner: Seq<u8>| #[trigger]
        next.confirmations.contains((other, owner)) implies next.has_transaction(other)
        && next.is_owner(owner) by {
        assert(wallet.confirmations.contains((other, owner)));
    }
    assert forall|other: nat| #[trigger]
        next.has_transaction(other) implies next.tally_fits(other) by {
        assert(wallet.has_transaction(other));
        assert(next.confirmers(other) =~= wallet.confirmers(other));
    }
}

/// Every operation, refused or not, leads from a well-formed wallet to a
/// well-formed wallet.
pub proof fn lemma_apply_wf(wallet: WalletView, operation: Operation)
    requires
        wallet.wf(),
    ensures
        wallet.apply(operation).wf(),
{
    if wallet.refusal(operation).is_none() {
        match operation {
            Operation::Submit { sender, to, value, data } => {
                lemma_submitted_wf(wallet, sender, to, value, data);
            },
            Operation::Confirm { sender, id } => {
                lemma_confirmed_wf(wallet, sender, id);
            },
            Operation::Execute { id } => {
                lemma_executed_wf(wallet, id);
            },
        }
    }
}

/// Every sequence of operations leads from a well-formed wallet to a
/// well-formed wallet.
pub proof fn lemma_run_wf(wallet: WalletView, operations: Seq<Operation>)
    requires
        wallet.wf(),
    ensures
        wallet.run(operations).wf(),
    decreases operations.len(),
{
    if operations.len() > 0 {
        lemma_run_wf(wallet, operations.drop_last());
        lemma_apply_wf(wallet.run(operations.drop_last()), operations.last());
    }
}

/// After any sequence of operations on a new wallet, the confirmation count of
/// each transaction is the number of distinct owners whose confirmation of it
/// is recorded.
pub proof fn lemma_count_is_number_of_confirmers(
    owners: Seq<Seq<u8>>,
    required: nat,
    operations: Seq<Operation>,
    id: nat,
)
    requires
        owners_fit(owners),
        threshold_fits(owners.len(), required),
        WalletView::initial(owners, required).run(operations).has_transaction(id),
    ensures
        ({
            let wallet = WalletView::initial(owners, required).run(operations);
            &&& wallet.transactions[id as int].confirmation_count == wallet.confirmers(id).len()
            &&& wallet.confirmers(id).subset_of(wallet.owners.to_set())
            &&& wallet.confirmers(id) == Set::new(
                |owner: Seq<u8>| wallet.is_owner(owner) && wallet.is_confirmed(id, owner),
            )
        }),
{
    let wallet = WalletView::initial(owners, required).run(operations);
    lemma_initial_wf(owners, required);
    lemma_run_wf(WalletView::initial(owners, required), operations);
    lemma_confirmers_are_owners(wallet, id);
    assert(wallet.confirmers(id) =~= Set::new(
        |owner: Seq<u8>| wallet.is_owner(owner) && wallet.is_confirmed(id, owner),
    ));
}

/// No operation changes a transaction that was executed, nor its id: its
/// fields and its confirmation count stay as they are, and it stays executed.
pub proof fn lemma_executed_is_final(wallet: WalletView, operation: Operation, id: nat)
    requires
        wallet.has_transaction(id),
        wallet.transactions[id as int].executed,
    ensures
        wallet.apply(operation).has_transaction(id),
        wallet.apply(operation).transactions[id as int] == wallet.transactions[id as int],
{
}

/// No sequence of operations changes a transaction that was executed.
pub proof fn lemma_executed_stays_final(wallet: WalletView, operations: Seq<Operation>, id: nat)
    requires
        wallet.has_transaction(id),
        wallet.transactions[id as int].executed,
    ensures
        wallet.run(operations).has_transaction(id),
        wallet.run(operations).transactions[id as int] == wallet.transactions[id as int],
    decreases operations.len(),
{
    if operations.len() > 0 {
        lemma_executed_stays_final(wallet, operations.drop_last(), id);
        lemma_executed_is_final(wallet.run(operations.drop_last()), operations.last(), id);
    }
}

/// Once a transaction has been executed, every later attempt to execute it is
/// refused because it was executed already, and changes nothing.
pub proof fn lemma_executes_at_most_once(
    wallet: WalletView,
    id: nat,
    operations: Seq<Operation>,
)
    requires
        wallet.execute_error(id).is_none(),
    ensures
        ({
            let later = wallet.executed(id).run(operations);
            &&& later.execute_error(id) == Some(WalletError::AlreadyExecuted)
            &&& later.apply(Operation::Execute { id }) == later
        }),
{
    lemma_executed_stays_final(wallet.executed(id), operations, id);
}

/// An owner who has confirmed a transaction is refused when confirming it
/// again: at once because the confirmation is recorded, and after any further
/// operations for the same reason, or because the transaction was executed in
/// between. The refused call changes nothing, so the confirmation count stays.
pub proof fn lemma_confirms_at_most_once(
    wallet: WalletView,
    sender: Seq<u8>,
    id: nat,
    operations: Seq<Operation>,
)
    requires
        wallet.confirm_error(sender, id).is_none(),
    ensures
        wallet.confirmed(sender, id).confirm_error(sender, id) == Some(
            WalletError::AlreadyConfirmed,
        ),
        ({
            let later = wallet.confirmed(sender, id).run(operations);
            &&& later.confirm_error(sender, id) == Some(
                if later.transactions[id as int].executed {
                    WalletError::AlreadyExecuted
                } else {
                    WalletError::AlreadyConfirmed
                },
            )
            &&& later.apply(Operation::Confirm { sender, id }) == later
        }),
{
    lemma_confirmation_stays(wallet.confirmed(sender, id), operations, sender, id);
}

/// No sequence of operations removes an owner, a transaction or a recorded
/// confirmation.
pub proof fn lemma_confirmation_stays(
    wallet: WalletView,
    operations: Seq<Operation>,
    sender: Seq<u8>,
    id: nat,
)
    requires
        wallet.is_owner(sender),
        wallet.has_transaction(id),
        wallet.is_confirmed(id, sender),
    ensures
        wallet.run(operations).is_owner(sender),
        wallet.run(operations).has_transaction(id),
        wallet.run(operations).is_confirmed(id, sender),
    decreases operations.len(),
{
    if operations.len() > 0 {
        lemma_confirmation_stays(wallet, operations.drop_last(), sender, id);
    }
}

/// No sequence of operations removes a transaction, gives it another id or
/// changes its receiver, amount or payload; its confirmation count never
/// falls, and once it is executed it stays executed.
pub proof fn lemma_transaction_persists(wallet: WalletView, operations: Seq<Operation>, id: nat)
    requires
        wallet.has_transaction(id),
    ensures
        ({
            let before = wallet.transactions[id as int];
            let after = wallet.run(operations).transactions[id as int];
            &&& wallet.run(operations).has_transaction(id)
            &&& after.to == before.to
            &&& after.value == before.value
            &&& after.data == before.data
            &&& after.confirmation_count >= before.confirmation_count
            &&& before.executed ==> after.executed
        }),
    decreases operations.len(),
{
    if operations.len() > 0 {
        lemma_transaction_persists(wallet, operations.drop_last(), id);
    }
}

/// An operation that is accepted sends exactly one notification, after those
/// sent before; one that is refused sends none.
pub proof fn lemma_one_notification_per_success(wallet: WalletView, operation: Operation)
    ensures
        wallet.refusal(operation).is_none() ==> wallet.apply(operation).events.drop_last()
            == wallet.events && wallet.apply(operation).events.len() == wallet.events.len() + 1,
        wallet.refusal(operation).is_some() ==> wallet.apply(operation).events == wallet.events,
{
    if wallet.refusal(operation).is_none() {
        assert(wallet.apply(operation).events.drop_last() =~= wallet.events);
    }
}

/// A transaction that exists and has fewer confirmations than are required
/// cannot be executed: the attempt is refused for want of confirmations. One
/// that is not executed and has at least as many confirmations as are required
/// can be executed.
pub proof fn lemma_quorum_decides_execution(wallet: WalletView, id: nat)
    requires
        wallet.wf(),
        wallet.has_transaction(id),
    ensures
        wallet.transactions[id as int].confirmation_count < wallet.required
            ==> wallet.execute_error(id) == Some(WalletError::InsufficientConfirmations),
        wallet.transactions[id as int].confirmation_count >= wallet.required
            && !wallet.transactions[id as int].executed ==> wallet.execute_error(id).is_none(),
{
}

} // verus!
