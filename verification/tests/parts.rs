use multisig_wallet::address::Address;
use multisig_wallet::error::WalletError;
use multisig_wallet::ledger::ConfirmationLedger;
use multisig_wallet::registry::{position_of, OwnerRegistry};
use multisig_wallet::store::TransactionStore;
use multisig_wallet::uint::Uint256;

fn tagged(tag: u8) -> Address {
    let mut bytes = [0u8; 20];
    bytes[0] = tag;
    Address::new(bytes)
}

#[test]
fn zero_address_is_all_zero_bytes() {
    assert!(Address::new([0u8; 20]).is_zero());
    for place in 0..20 {
        let mut bytes = [0u8; 20];
        bytes[place] = 1;
        assert!(!Address::new(bytes).is_zero());
    }
    assert!(!Address::new([0xff; 20]).is_zero());
}

#[test]
fn addresses_are_the_same_when_all_bytes_agree() {
    let base = [0x5a; 20];
    assert!(Address::new(base).same_as(&Address::new(base)));
    for place in 0..20 {
        let mut bytes = base;
        bytes[place] ^= 0x01;
        assert!(!Address::new(base).same_as(&Address::new(bytes)));
        assert!(!Address::new(bytes).same_as(&Address::new(base)));
    }
    assert!(Address::new([0; 20]).same_as(&Address::new([0; 20])));
}

#[test]
fn address_gives_back_its_bytes() {
    let mut bytes = [0u8; 20];
    for (place, byte) in bytes.iter_mut().enumerate() {
        *byte = place as u8 + 1;
    }
    assert_eq!(Address::new(bytes).into_array(), bytes);
}

#[test]
fn from_usize_fills_the_lowest_limb() {
    assert_eq!(Uint256::from_usize(0).into_limbs(), [0, 0, 0, 0]);
    assert_eq!(Uint256::from_usize(5).into_limbs(), [5, 0, 0, 0]);
    assert_eq!(Uint256::from_usize(usize::MAX).into_limbs(), [usize::MAX as u64, 0, 0, 0]);
    assert_eq!(Uint256::from_usize(77), Uint256::from_limbs([77, 0, 0, 0]));
}

#[test]
fn to_usize_succeeds_where_the_number_fits() {
    assert_eq!(Uint256::from_limbs([0, 0, 0, 0]).to_usize(), Some(0));
    assert_eq!(Uint256::from_limbs([42, 0, 0, 0]).to_usize(), Some(42));
    assert_eq!(Uint256::from_limbs([usize::MAX as u64, 0, 0, 0]).to_usize(), Some(usize::MAX));
    assert_eq!(Uint256::from_limbs([42, 1, 0, 0]).to_usize(), None);
    assert_eq!(Uint256::from_limbs([0, 0, 1, 0]).to_usize(), None);
    assert_eq!(Uint256::from_limbs([0, 0, 0, 1]).to_usize(), None);
    assert_eq!(Uint256::from_limbs([u64::MAX; 4]).to_usize(), None);
}

#[test]
fn usize_round_trips_through_uint() {
    for n in [0usize, 1, 2, 255, 256, 65_535, 1 << 31, usize::MAX - 1, usize::MAX] {
        assert_eq!(Uint256::from_usize(n).to_usize(), Some(n));
    }
}

#[test]
fn every_error_has_its_message() {
    assert_eq!(WalletError::EmptyOwnerSet.message(), "Owners required");
    assert_eq!(WalletError::InvalidThreshold.message(), "Invalid required confirmations");
    assert_eq!(WalletError::ZeroAddress.message(), "Invalid owner address");
    assert_eq!(WalletError::DuplicateOwner.message(), "Duplicate owner");
    assert_eq!(WalletError::Unauthorized.message(), "Not an owner");
    assert_eq!(WalletError::NotFound.message(), "Transaction not found");
    assert_eq!(WalletError::AlreadyExecuted.message(), "Transaction already executed");
    assert_eq!(WalletError::AlreadyConfirmed.message(), "Transaction already confirmed");
    assert_eq!(WalletError::InsufficientConfirmations.message(), "Not enough confirmations");
}

#[test]
fn position_of_finds_the_first_place() {
    let list = vec![tagged(1), tagged(2), tagged(1), tagged(3)];
    assert_eq!(position_of(&list, 4, &tagged(1)), Some(0));
    assert_eq!(position_of(&list, 4, &tagged(2)), Some(1));
    assert_eq!(position_of(&list, 4, &tagged(3)), Some(3));
    assert_eq!(position_of(&list, 3, &tagged(3)), None);
    assert_eq!(position_of(&list, 0, &tagged(1)), None);
    assert_eq!(position_of(&list, 4, &tagged(4)), None);
}

#[test]
fn registry_keeps_owners_and_threshold() {
    let registry =
        OwnerRegistry::initialize(vec![tagged(1), tagged(2)], Uint256::from_usize(2)).unwrap();
    assert_eq!(registry.owner_count(), 2);
    assert_eq!(registry.required_confirmations(), 2);
    assert!(registry.is_owner(&tagged(1)));
    assert!(registry.is_owner(&tagged(2)));
    assert!(!registry.is_owner(&tagged(3)));
}

#[test]
fn registry_refuses_unfit_owners() {
    let one = Uint256::from_usize(1);
    assert_eq!(OwnerRegistry::initialize(vec![], one).err(), Some(WalletError::EmptyOwnerSet));
    assert_eq!(
        OwnerRegistry::initialize(vec![tagged(1)], Uint256::from_usize(2)).err(),
        Some(WalletError::InvalidThreshold)
    );
    assert_eq!(
        OwnerRegistry::initialize(vec![tagged(0)], one).err(),
        Some(WalletError::ZeroAddress)
    );
    assert_eq!(
        OwnerRegistry::initialize(vec![tagged(4), tagged(4)], one).err(),
        Some(WalletError::DuplicateOwner)
    );
}

#[test]
fn store_assigns_ids_in_order() {
    let registry = OwnerRegistry::initialize(vec![tagged(1)], Uint256::from_usize(1)).unwrap();
    let mut store = TransactionStore::new();
    assert_eq!(store.len(), 0);
    assert_eq!(store.get(0).err(), Some(WalletError::NotFound));
    let amount = Uint256::from_usize(10);
    assert_eq!(store.submit(&registry, &tagged(1), tagged(9), amount, vec![1]), Ok(0));
    assert_eq!(
        store.submit(&registry, &tagged(2), tagged(9), amount, vec![2]),
        Err(WalletError::Unauthorized)
    );
    assert_eq!(store.submit(&registry, &tagged(1), tagged(8), amount, vec![3]), Ok(1));
    assert_eq!(store.len(), 2);
    let second = store.get(1).unwrap();
    assert_eq!(second.to, tagged(8));
    assert_eq!(second.value, amount);
    assert_eq!(second.data, vec![3]);
    assert!(!second.executed);
    assert_eq!(second.confirmation_count, 0);
    assert_eq!(store.get(2).err(), Some(WalletError::NotFound));
}

#[test]
fn store_updates_one_transaction_only() {
    let registry = OwnerRegistry::initialize(vec![tagged(1)], Uint256::from_usize(1)).unwrap();
    let mut store = TransactionStore::new();
    let amount = Uint256::from_usize(10);
    store.submit(&registry, &tagged(1), tagged(9), amount, vec![]).unwrap();
    store.submit(&registry, &tagged(1), tagged(9), amount, vec![]).unwrap();
    let untouched = store.get(0).unwrap().clone();
    store.increment_confirmation_count(1);
    store.increment_confirmation_count(1);
    assert_eq!(store.get(1).unwrap().confirmation_count, 2);
    assert!(!store.get(1).unwrap().executed);
    store.mark_executed(1);
    assert!(store.get(1).unwrap().executed);
    assert_eq!(store.get(1).unwrap().confirmation_count, 2);
    assert_eq!(store.get(0).unwrap(), &untouched);
}

#[test]
fn ledger_records_each_pair_once() {
    let mut ledger = ConfirmationLedger::new();
    assert!(!ledger.has_confirmed(0, &tagged(1)));
    assert_eq!(ledger.record(0, tagged(1)), Ok(()));
    assert!(ledger.has_confirmed(0, &tagged(1)));
    assert!(!ledger.has_confirmed(1, &tagged(1)));
    assert!(!ledger.has_confirmed(0, &tagged(2)));
    let before = ledger.clone();
    assert_eq!(ledger.record(0, tagged(1)), Err(WalletError::AlreadyConfirmed));
    assert_eq!(ledger, before);
    assert_eq!(ledger.record(1, tagged(1)), Ok(()));
    assert_eq!(ledger.record(0, tagged(2)), Ok(()));
    assert!(ledger.has_confirmed(1, &tagged(1)));
    assert!(ledger.has_confirmed(0, &tagged(2)));
    assert!(!ledger.has_confirmed(1, &tagged(2)));
}
