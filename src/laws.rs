use crate::allocator::{allocation_step, IdentifierAllocator};
use crate::bridge::{
    deposit_post, lemma_scan_ok, minted_id, scan, total_of, withdraw_outcome, withdraw_post,
    Withdrawal,
};
use crate::types::{base_asset, Address, BridgeError, Coin, CoinId};
use crate::units::CONVERSION_FACTOR;
use vstd::prelude::*;

verus! {

/// A deposit of a whole number of coin-domain units mints a coin of exactly
/// `value / CONVERSION_FACTOR` units; a deposit of any other value is refused
/// and stores no coin.
pub proof fn law_deposit_mints_quotient(
    coins0: Map<CoinId, Coin>,
    next0: u64,
    coins1: Map<CoinId, Coin>,
    next1: u64,
    recipient: Address,
    value: u128,
    balance: u128,
    r: Result<CoinId, BridgeError>,
)
    requires
        deposit_post(coins0, next0, coins1, next1, recipient, value, balance, r),
    ensures
        value % CONVERSION_FACTOR != 0 ==> r is Err && coins1 == coins0,
        r is Ok ==> {
            &&& value % CONVERSION_FACTOR == 0
            &&& !coins0.contains_key(r->Ok_0)
            &&& coins1.contains_key(r->Ok_0)
            &&& coins1[r->Ok_0].amount == value / CONVERSION_FACTOR
            &&& coins1[r->Ok_0].owner == recipient
        },
        balance >= value && value > 0 && value % CONVERSION_FACTOR == 0 && value / CONVERSION_FACTOR <= u64::MAX
            && next0 < u64::MAX && !coins0.contains_key(minted_id(next0)) ==> r is Ok,
{
}

/// A deposit of zero is refused and changes nothing.
pub proof fn law_zero_deposit_refused(
    coins0: Map<CoinId, Coin>,
    next0: u64,
    coins1: Map<CoinId, Coin>,
    next1: u64,
    recipient: Address,
    balance: u128,
    r: Result<CoinId, BridgeError>,
)
    requires
        deposit_post(coins0, next0, coins1, next1, recipient, 0, balance, r),
    ensures
        r == Err::<CoinId, BridgeError>(BridgeError::ZeroDeposit),
        coins1 == coins0,
        next1 == next0,
{
}

/// A withdrawal of exactly what its coins hold mints no change coin and
/// removes exactly the named coins.
pub proof fn law_exact_withdrawal_mints_nothing(
    coins0: Map<CoinId, Coin>,
    next0: u64,
    coins1: Map<CoinId, Coin>,
    next1: u64,
    ids: Seq<CoinId>,
    amount: u64,
    caller: Address,
    r: Result<Withdrawal, BridgeError>,
)
    requires
        withdraw_post(coins0, next0, coins1, next1, ids, amount, caller, r),
        total_of(coins0, ids, ids.len()) == amount,
        r is Ok,
    ensures
        r->Ok_0.change == None::<CoinId>,
        coins1 == coins0.remove_keys(ids.to_set()),
        next1 == next0,
{
    lemma_scan_ok(coins0, ids, ids.len());
}

/// A withdrawal of less than its coins hold mints exactly one new coin, for
/// the coins' owner, holding the difference.
pub proof fn law_change_coin(
    coins0: Map<CoinId, Coin>,
    next0: u64,
    coins1: Map<CoinId, Coin>,
    next1: u64,
    ids: Seq<CoinId>,
    amount: u64,
    caller: Address,
    r: Result<Withdrawal, BridgeError>,
)
    requires
        withdraw_post(coins0, next0, coins1, next1, ids, amount, caller, r),
        total_of(coins0, ids, ids.len()) > amount,
        r is Ok,
    ensures
        r->Ok_0.change == Some(minted_id(next0)),
        !coins0.contains_key(minted_id(next0)),
        coins1 == coins0.remove_keys(ids.to_set()).insert(
            minted_id(next0),
            Coin { owner: coins0[ids[0]].owner, amount: (total_of(coins0, ids, ids.len()) - amount) as u64, asset_id: base_asset() },
        ),
{
    lemma_scan_ok(coins0, ids, ids.len());
}

/// A withdrawal that names two coins of different owners is refused and
/// changes nothing.
pub proof fn law_mixed_owners_refused(
    coins0: Map<CoinId, Coin>,
    next0: u64,
    coins1: Map<CoinId, Coin>,
    next1: u64,
    ids: Seq<CoinId>,
    amount: u64,
    caller: Address,
    r: Result<Withdrawal, BridgeError>,
    a: int,
    b: int,
)
    requires
        withdraw_post(coins0, next0, coins1, next1, ids, amount, caller, r),
        0 <= a < ids.len(),
        0 <= b < ids.len(),
        coins0.contains_key(ids[a]),
        coins0.contains_key(ids[b]),
        coins0[ids[a]].owner != coins0[ids[b]].owner,
    ensures
        r is Err,
        coins1 == coins0,
        next1 == next0,
{
    if scan(coins0, ids, ids.len()) is Ok {
        lemma_scan_ok(coins0, ids, ids.len());
    }
}

/// A withdrawal of more than its coins hold together is refused and changes
/// nothing.
pub proof fn law_overdraw_refused(
    coins0: Map<CoinId, Coin>,
    next0: u64,
    coins1: Map<CoinId, Coin>,
    next1: u64,
    ids: Seq<CoinId>,
    amount: u64,
    caller: Address,
    r: Result<Withdrawal, BridgeError>,
)
    requires
        withdraw_post(coins0, next0, coins1, next1, ids, amount, caller, r),
        amount > total_of(coins0, ids, ids.len()),
    ensures
        r is Err,
        coins1 == coins0,
        next1 == next0,
{
    if scan(coins0, ids, ids.len()) is Ok {
        lemma_scan_ok(coins0, ids, ids.len());
    }
}

/// What a withdrawal spends equals what it credits plus the change it mints.
pub proof fn law_withdrawal_conserves(
    coins0: Map<CoinId, Coin>,
    next0: u64,
    coins1: Map<CoinId, Coin>,
    next1: u64,
    ids: Seq<CoinId>,
    amount: u64,
    caller: Address,
    r: Result<Withdrawal, BridgeError>,
)
    requires
        withdraw_post(coins0, next0, coins1, next1, ids, amount, caller, r),
        r is Ok,
    ensures
        total_of(coins0, ids, ids.len()) == amount + match r->Ok_0.change {
            Some(id) => coins1[id].amount as int,
            None => 0,
        },
{
    lemma_scan_ok(coins0, ids, ids.len());
}

/// A deposit of `value` followed by a withdrawal of the whole minted coin
/// credits exactly `value` back and leaves the coins as they were.
pub proof fn law_round_trip(
    coins0: Map<CoinId, Coin>,
    next0: u64,
    coins1: Map<CoinId, Coin>,
    next1: u64,
    coins2: Map<CoinId, Coin>,
    next2: u64,
    recipient: Address,
    value: u128,
    balance: u128,
    r1: Result<CoinId, BridgeError>,
    caller: Address,
    r2: Result<Withdrawal, BridgeError>,
)
    requires
        deposit_post(coins0, next0, coins1, next1, recipient, value, balance, r1),
        r1 is Ok,
        withdraw_post(coins1, next1, coins2, next2, seq![r1->Ok_0], (value / CONVERSION_FACTOR) as u64, caller, r2),
    ensures
        r2 is Ok,
        r2->Ok_0.value == value,
        r2->Ok_0.change == None::<CoinId>,
        coins2 == coins0,
{
    let id = r1->Ok_0;
    let ids = seq![id];
    assert(!coins0.contains_key(id));
    assert(ids.subrange(0, 0) =~= Seq::<CoinId>::empty());
    assert(scan(coins1, ids, 0) == Ok::<(Option<Address>, nat), BridgeError>((None, 0)));
    assert(scan(coins1, ids, 1) == Ok::<(Option<Address>, nat), BridgeError>((Some(recipient), (value / CONVERSION_FACTOR) as nat)));
    assert(withdraw_outcome(coins1, next1, ids, (value / CONVERSION_FACTOR) as u64) is Ok);
    assert(ids.to_set() =~= set![id]) by {
        assert(ids[0] == id);
    }
    assert(coins1.remove_keys(ids.to_set()) =~= coins0);
    assert(((value / CONVERSION_FACTOR) as u64) * CONVERSION_FACTOR == value) by (nonlinear_arith)
        requires value % CONVERSION_FACTOR == 0, value / CONVERSION_FACTOR <= u64::MAX, CONVERSION_FACTOR == 1_000_000_000;
}

/// Successive successful allocations return strictly increasing indices.
pub proof fn law_allocations_increase(states: Seq<IdentifierAllocator>, results: Seq<Result<u64, BridgeError>>)
    requires
        states.len() == results.len() + 1,
        forall|i: int| 0 <= i < results.len() ==> allocation_step(states[i], states[i + 1], #[trigger] results[i]),
        forall|i: int| 0 <= i < results.len() ==> #[trigger] results[i] is Ok,
    ensures
        forall|i: int, j: int| 0 <= i < j < results.len() ==> #[trigger] results[i]->Ok_0 < #[trigger] results[j]->Ok_0,
{
    assert forall|i: int, j: int| 0 <= i < j < results.len() implies #[trigger] results[i]->Ok_0 < #[trigger] results[j]->Ok_0 by {
        lemma_next_grows(states, results, i, j);
    }
}

proof fn lemma_next_grows(states: Seq<IdentifierAllocator>, results: Seq<Result<u64, BridgeError>>, i: int, j: int)
    requires
        states.len() == results.len() + 1,
        forall|k: int| 0 <= k < results.len() ==> allocation_step(states[k], states[k + 1], #[trigger] results[k]),
        forall|k: int| 0 <= k < results.len() ==> #[trigger] results[k] is Ok,
        0 <= i < j <= results.len(),
    ensures
        results[i]->Ok_0 < states[j].next_value(),
    decreases j - i,
{
    assert(allocation_step(states[i], states[i + 1], results[i]));
    if j > i + 1 {
        lemma_next_grows(states, results, i, j - 1);
        assert(allocation_step(states[j - 1], states[j], results[j - 1]));
    }
}

} // verus!
