use fvm_bridge::{
    base_asset_id, to_account_units, to_utxo_units, tx_id_of, BridgeError, Bytes32, Coin, CoinId,
    FvmLoaderEntrypoint, IdentifierAllocator, RouterAPI, CONVERSION_FACTOR,
};

const GWEI: u128 = 1_000_000_000;

fn alice() -> Bytes32 {
    Bytes32(0, 0, 0, 0xa11ce)
}

fn bob() -> Bytes32 {
    Bytes32(0, 0, 0, 0xb0b)
}

fn minted(index: u64) -> CoinId {
    CoinId { tx_id: tx_id_of(index), output_index: 0 }
}

#[test]
fn converts_exact_multiples_only() {
    assert_eq!(to_utxo_units(3 * GWEI), Ok(3));
    assert_eq!(to_utxo_units(0), Ok(0));
    assert_eq!(to_utxo_units(3 * GWEI + 1), Err(BridgeError::InexactConversion));
    assert_eq!(to_utxo_units(999_999_999), Err(BridgeError::InexactConversion));
    assert_eq!(to_utxo_units((u64::MAX as u128) * GWEI), Ok(u64::MAX));
    assert_eq!(to_utxo_units((u64::MAX as u128 + 1) * GWEI), Err(BridgeError::AmountOverflow));
    assert_eq!(to_account_units(7), 7_000_000_000);
    assert_eq!(to_account_units(u64::MAX), (u64::MAX as u128) * CONVERSION_FACTOR);
}

#[test]
fn allocator_returns_increasing_indices() {
    let mut a = IdentifierAllocator::new();
    let mut last: Option<u64> = None;
    for _ in 0..10 {
        let i = a.next_index().unwrap();
        if let Some(l) = last {
            assert!(i > l);
        }
        last = Some(i);
    }
    assert_eq!(last, Some(9));
}

#[test]
fn deposit_mints_quotient() {
    let mut l = FvmLoaderEntrypoint::new();
    let id = l.deposit(alice(), 5 * GWEI, 10 * GWEI).unwrap();
    assert_eq!(id, minted(0));
    assert_eq!(
        l.coin(&id),
        Some(Coin { owner: alice(), amount: 5, asset_id: base_asset_id() })
    );
}

#[test]
fn deposit_refuses_inexact_value() {
    let mut l = FvmLoaderEntrypoint::new();
    assert_eq!(l.deposit(alice(), 5 * GWEI + 7, 10 * GWEI), Err(BridgeError::InexactConversion));
    assert_eq!(l.coin(&minted(0)), None);
    // the counter was not advanced: the next deposit still gets index 0
    assert_eq!(l.deposit(alice(), GWEI, GWEI), Ok(minted(0)));
}

#[test]
fn deposit_of_zero_is_refused() {
    let mut l = FvmLoaderEntrypoint::new();
    assert_eq!(l.deposit(alice(), 0, 10 * GWEI), Err(BridgeError::ZeroDeposit));
    assert_eq!(l.coin(&minted(0)), None);
}

#[test]
fn deposit_beyond_balance_is_refused() {
    let mut l = FvmLoaderEntrypoint::new();
    assert_eq!(l.deposit(alice(), 2 * GWEI, GWEI), Err(BridgeError::InsufficientBalance));
    assert_eq!(l.coin(&minted(0)), None);
}

#[test]
fn deposit_too_large_for_a_coin_is_refused() {
    let mut l = FvmLoaderEntrypoint::new();
    let v = (u64::MAX as u128 + 1) * GWEI;
    assert_eq!(l.deposit(alice(), v, v), Err(BridgeError::AmountOverflow));
}

#[test]
fn exact_withdrawal_mints_no_change() {
    let mut l = FvmLoaderEntrypoint::new();
    let a = l.deposit(alice(), 3 * GWEI, 10 * GWEI).unwrap();
    let b = l.deposit(alice(), 4 * GWEI, 10 * GWEI).unwrap();
    let w = l.withdraw(&vec![a, b], 7, bob()).unwrap();
    assert_eq!(w.recipient, bob());
    assert_eq!(w.value, 7 * GWEI);
    assert_eq!(w.change, None);
    assert_eq!(l.coin(&a), None);
    assert_eq!(l.coin(&b), None);
    assert_eq!(l.coin(&minted(2)), None);
}

#[test]
fn partial_withdrawal_mints_one_change_coin() {
    let mut l = FvmLoaderEntrypoint::new();
    let a = l.deposit(alice(), 3 * GWEI, 10 * GWEI).unwrap();
    let b = l.deposit(alice(), 4 * GWEI, 10 * GWEI).unwrap();
    let w = l.withdraw(&vec![a, b], 5, bob()).unwrap();
    assert_eq!(w.value, 5 * GWEI);
    assert_eq!(w.change, Some(minted(2)));
    assert_eq!(
        l.coin(&minted(2)),
        Some(Coin { owner: alice(), amount: 2, asset_id: base_asset_id() })
    );
    assert_eq!(l.coin(&a), None);
    assert_eq!(l.coin(&b), None);
    assert_eq!(l.coin(&minted(3)), None);
}

#[test]
fn mixed_owners_are_refused() {
    let mut l = FvmLoaderEntrypoint::new();
    let a = l.deposit(alice(), 3 * GWEI, 10 * GWEI).unwrap();
    let b = l.deposit(bob(), 4 * GWEI, 10 * GWEI).unwrap();
    assert_eq!(l.withdraw(&vec![a, b], 1, alice()), Err(BridgeError::OwnerMismatch));
    assert_eq!(l.coin(&a).map(|c| c.amount), Some(3));
    assert_eq!(l.coin(&b).map(|c| c.amount), Some(4));
}

#[test]
fn overdraw_is_refused() {
    let mut l = FvmLoaderEntrypoint::new();
    let a = l.deposit(alice(), 3 * GWEI, 10 * GWEI).unwrap();
    assert_eq!(l.withdraw(&vec![a], 4, alice()), Err(BridgeError::InsufficientCoinBalance));
    assert_eq!(l.coin(&a).map(|c| c.amount), Some(3));
}

#[test]
fn empty_coin_list_is_refused() {
    let mut l = FvmLoaderEntrypoint::new();
    assert_eq!(l.withdraw(&vec![], 0, alice()), Err(BridgeError::EmptyCoinList));
}

#[test]
fn missing_coin_is_refused() {
    let mut l = FvmLoaderEntrypoint::new();
    let a = l.deposit(alice(), 3 * GWEI, 10 * GWEI).unwrap();
    assert_eq!(l.withdraw(&vec![a, minted(9)], 1, alice()), Err(BridgeError::CoinNotFound));
    assert_eq!(l.coin(&a).map(|c| c.amount), Some(3));
}

#[test]
fn duplicate_coin_is_refused() {
    let mut l = FvmLoaderEntrypoint::new();
    let a = l.deposit(alice(), 3 * GWEI, 10 * GWEI).unwrap();
    assert_eq!(l.withdraw(&vec![a, a], 6, alice()), Err(BridgeError::DuplicateCoin));
    assert_eq!(l.coin(&a).map(|c| c.amount), Some(3));
}

#[test]
fn total_beyond_coin_range_is_refused() {
    let mut l = FvmLoaderEntrypoint::new();
    let v = (u64::MAX as u128) * GWEI;
    let a = l.deposit(alice(), v, v).unwrap();
    let b = l.deposit(alice(), GWEI, GWEI).unwrap();
    assert_eq!(l.withdraw(&vec![a, b], 1, alice()), Err(BridgeError::BalanceOverflow));
    assert_eq!(l.coin(&a).map(|c| c.amount), Some(u64::MAX));
}

#[test]
fn deposit_then_full_withdrawal_round_trips() {
    let mut l = FvmLoaderEntrypoint::new();
    let v = 42 * GWEI;
    let a = l.deposit(alice(), v, v).unwrap();
    let w = l.withdraw(&vec![a], (v / CONVERSION_FACTOR) as u64, alice()).unwrap();
    assert_eq!(w.value, v);
    assert_eq!(w.change, None);
    assert_eq!(l.coin(&a), None);
    assert_eq!(l.coin(&minted(1)), None);
}

#[test]
fn minted_coin_ids_never_repeat() {
    let mut l = FvmLoaderEntrypoint::new();
    let mut seen: Vec<CoinId> = Vec::new();
    for k in 1..6u128 {
        let id = l.deposit(alice(), 10 * k * GWEI, 100 * GWEI).unwrap();
        assert!(!seen.contains(&id));
        seen.push(id);
        let w = l.withdraw(&vec![id], 1, alice()).unwrap();
        let change = w.change.unwrap();
        assert!(!seen.contains(&change));
        seen.push(change);
        assert_eq!(l.coin(&change).map(|c| c.amount), Some((10 * k - 1) as u64));
    }
    assert_eq!(seen.len(), 10);
}

#[test]
fn router_forwards_deposit_and_withdrawal() {
    let mut l = FvmLoaderEntrypoint::new();
    let a = l.fvm_deposit(alice(), 2 * GWEI, 2 * GWEI).unwrap();
    let w = l.fvm_withdraw(&vec![a], 2, alice()).unwrap();
    assert_eq!(w.value, 2 * GWEI);
}

#[test]
fn router_hands_payload_to_engine() {
    let mut l = FvmLoaderEntrypoint::new();
    let msg = [1u8, 2, 3, 4];
    let d = l.fvm_dry_run(&msg);
    assert_eq!(d.payload, vec![1u8, 2, 3, 4]);
    assert!(!d.commit);
    let e = l.fvm_exec(&msg);
    assert_eq!(e.payload, vec![1u8, 2, 3, 4]);
    assert!(e.commit);
    assert!(l.fvm_exec(&[]).payload.is_empty());
}

#[test]
fn dry_run_and_exec_leave_ledger_alone_and_pass_full_gas() {
    let mut l = FvmLoaderEntrypoint::new();
    let a = l.deposit(alice(), 2 * GWEI, 2 * GWEI).unwrap();
    let d = l.fvm_dry_run(&[9u8]);
    assert_eq!(d.gas_limit, u64::MAX);
    let e = l.fvm_exec(&[9u8]);
    assert_eq!(e.gas_limit, u64::MAX);
    assert_eq!(l.coin(&a).map(|c| c.amount), Some(2));
    assert_eq!(l.deposit(alice(), GWEI, GWEI), Ok(minted(1)));
}

#[test]
fn loaded_coins_can_be_withdrawn() {
    let mut l = FvmLoaderEntrypoint::new();
    let id = CoinId { tx_id: Bytes32(7, 7, 7, 7), output_index: 3 };
    let coin = Coin { owner: bob(), amount: 10, asset_id: base_asset_id() };
    assert_eq!(l.load_coin(id, coin), Ok(()));
    assert_eq!(l.load_coin(id, coin), Err(BridgeError::CoinExists));
    let zero = CoinId { tx_id: Bytes32(8, 8, 8, 8), output_index: 0 };
    assert_eq!(
        l.load_coin(zero, Coin { owner: bob(), amount: 0, asset_id: base_asset_id() }),
        Err(BridgeError::ZeroAmount)
    );
    assert_eq!(l.coin(&zero), None);
    let w = l.withdraw(&vec![id], 4, bob()).unwrap();
    assert_eq!(w.value, 4 * GWEI);
    assert_eq!(w.change, Some(minted(0)));
    assert_eq!(l.coin(&minted(0)).map(|c| c.amount), Some(6));
    assert_eq!(l.coin(&id), None);
}

#[test]
fn foreign_asset_is_refused() {
    let mut l = FvmLoaderEntrypoint::new();
    let id = CoinId { tx_id: Bytes32(7, 7, 7, 7), output_index: 0 };
    let coin = Coin { owner: bob(), amount: 10, asset_id: Bytes32(1, 1, 1, 1) };
    l.load_coin(id, coin).unwrap();
    assert_eq!(l.withdraw(&vec![id], 10, bob()), Err(BridgeError::AssetMismatch));
    assert_eq!(l.coin(&id), Some(coin));
}

#[test]
fn deposit_onto_taken_key_is_refused() {
    let mut l = FvmLoaderEntrypoint::new();
    let taken = Coin { owner: bob(), amount: 5, asset_id: base_asset_id() };
    l.load_coin(minted(0), taken).unwrap();
    assert_eq!(l.deposit(alice(), GWEI, GWEI), Err(BridgeError::CoinExists));
    assert_eq!(l.coin(&minted(0)), Some(taken));
}

#[test]
fn change_onto_taken_key_is_refused() {
    let mut l = FvmLoaderEntrypoint::new();
    let own = CoinId { tx_id: Bytes32(7, 7, 7, 7), output_index: 0 };
    l.load_coin(own, Coin { owner: bob(), amount: 5, asset_id: base_asset_id() }).unwrap();
    l.load_coin(minted(0), Coin { owner: alice(), amount: 1, asset_id: base_asset_id() }).unwrap();
    assert_eq!(l.withdraw(&vec![own], 2, bob()), Err(BridgeError::CoinExists));
    assert_eq!(l.coin(&own).map(|c| c.amount), Some(5));
    // an exact withdrawal mints nothing, so the taken key does not matter
    assert!(l.withdraw(&vec![own], 5, bob()).is_ok());
}

#[test]
fn exhausted_counter_refuses_mints() {
    let mut l = FvmLoaderEntrypoint::with_next_index(u64::MAX);
    assert_eq!(l.deposit(alice(), GWEI, GWEI), Err(BridgeError::IdentifiersExhausted));
    let mut l = FvmLoaderEntrypoint::with_next_index(u64::MAX - 1);
    let a = l.deposit(alice(), 3 * GWEI, 3 * GWEI).unwrap();
    assert_eq!(a, minted(u64::MAX - 1));
    assert_eq!(l.withdraw(&vec![a], 1, alice()), Err(BridgeError::IdentifiersExhausted));
    assert_eq!(l.coin(&a).map(|c| c.amount), Some(3));
}
