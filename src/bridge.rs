use crate::allocator::IdentifierAllocator;
use crate::store::CoinStore;
use crate::types::{base_asset, base_asset_id, spec_tx_id, tx_id_of, Address, BridgeError, Coin, CoinId};
use crate::units::{to_account_units, to_utxo_units, CONVERSION_FACTOR};
use vstd::prelude::*;

verus! {

/// What a successful withdrawal asks the host to do on the account side,
/// and the change coin it minted, if any.
#[derive(Clone, Copy, Debug, PartialEq, Eq, Structural)]
pub struct Withdrawal {
    /// The account to credit.
    pub recipient: Address,
    /// The value to credit, in account-domain units.
    pub value: u128,
    /// The identifier of the change coin, where the coins exceeded the request.
    pub change: Option<CoinId>,
}

/// A transaction payload to hand to the execution engine, and whether the
/// engine commits its effects or only simulates them.
pub struct TxForward {
    pub payload: Vec<u8>,
    pub commit: bool,
    pub gas_limit: u64,
}

/// Every coin of the ledger holds a positive amount.
pub open spec fn ledger_ok(coins: Map<CoinId, Coin>) -> bool {
    forall|id: CoinId| #[trigger] coins.contains_key(id) ==> coins[id].amount > 0
}

/// The identifier of the coin minted under allocated index `index`.
pub open spec fn minted_id(index: u64) -> CoinId {
    CoinId { tx_id: spec_tx_id(index), output_index: 0 }
}

/// The outcome of a deposit of `value` by a caller whose balance is
/// `balance`: the coin to mint and its key, or the refusal.
pub open spec fn deposit_outcome(coins: Map<CoinId, Coin>, next: u64, recipient: Address, value: u128, balance: u128) -> Result<(CoinId, Coin), BridgeError> {
    if balance < value {
        Err(BridgeError::InsufficientBalance)
    } else if value == 0 {
        Err(BridgeError::ZeroDeposit)
    } else if value % CONVERSION_FACTOR != 0 {
        Err(BridgeError::InexactConversion)
    } else if value / CONVERSION_FACTOR > u64::MAX {
        Err(BridgeError::AmountOverflow)
    } else if next == u64::MAX {
        Err(BridgeError::IdentifiersExhausted)
    } else if coins.contains_key(minted_id(next)) {
        Err(BridgeError::CoinExists)
    } else {
        Ok((minted_id(next), Coin { owner: recipient, amount: (value / CONVERSION_FACTOR) as u64, asset_id: base_asset() }))
    }
}

/// Validation of the first `n` coins named by a withdrawal, in order: the
/// common owner so far and the running total, or the first refusal.
pub open spec fn scan(coins: Map<CoinId, Coin>, ids: Seq<CoinId>, n: nat) -> Result<(Option<Address>, nat), BridgeError>
    decreases n,
{
    if n == 0 {
        Ok((None, 0))
    } else {
        match scan(coins, ids, (n - 1) as nat) {
            Err(e) => Err(e),
            Ok((owner, total)) => {
                let id = ids[n - 1];
                if !coins.contains_key(id) {
                    Err(BridgeError::CoinNotFound)
                } else if ids.subrange(0, n - 1).contains(id) {
                    Err(BridgeError::DuplicateCoin)
                } else if total + coins[id].amount > u64::MAX {
                    Err(BridgeError::BalanceOverflow)
                } else if coins[id].asset_id != base_asset() {
                    Err(BridgeError::AssetMismatch)
                } else if owner is Some && owner->0 != coins[id].owner {
                    Err(BridgeError::OwnerMismatch)
                } else {
                    Ok((Some(coins[id].owner), (total + coins[id].amount) as nat))
                }
            },
        }
    }
}

/// The sum of the amounts of the first `n` coins named by `ids`.
pub open spec fn total_of(coins: Map<CoinId, Coin>, ids: Seq<CoinId>, n: nat) -> nat
    decreases n,
{
    if n == 0 {
        0
    } else {
        (total_of(coins, ids, (n - 1) as nat) + coins[ids[n - 1]].amount) as nat
    }
}

/// The outcome of a withdrawal of `amount` from the coins `ids`: their
/// common owner and total, or the refusal.
pub open spec fn withdraw_outcome(coins: Map<CoinId, Coin>, next: u64, ids: Seq<CoinId>, amount: u64) -> Result<(Address, nat), BridgeError> {
    match scan(coins, ids, ids.len()) {
        Err(e) => Err(e),
        Ok((None, _)) => Err(BridgeError::EmptyCoinList),
        Ok((Some(owner), total)) => {
            if total < amount {
                Err(BridgeError::InsufficientCoinBalance)
            } else if total > amount && next == u64::MAX {
                Err(BridgeError::IdentifiersExhausted)
            } else if total > amount && coins.contains_key(minted_id(next)) {
                Err(BridgeError::CoinExists)
            } else {
                Ok((owner, total))
            }
        },
    }
}

/// The state after a deposit, and its result, as `deposit_outcome` decides.
pub open spec fn deposit_post(
    coins0: Map<CoinId, Coin>,
    next0: u64,
    coins1: Map<CoinId, Coin>,
    next1: u64,
    recipient: Address,
    value: u128,
    balance: u128,
    r: Result<CoinId, BridgeError>,
) -> bool {
    match deposit_outcome(coins0, next0, recipient, value, balance) {
        Ok((id, coin)) => {
            &&& r == Ok::<CoinId, BridgeError>(id)
            &&& !coins0.contains_key(id)
            &&& coins1 == coins0.insert(id, coin)
            &&& next1 == next0 + 1
        },
        Err(e) => r == Err::<CoinId, BridgeError>(e) && coins1 == coins0 && next1 == next0,
    }
}

/// The state after a withdrawal, and its result, as `withdraw_outcome`
/// decides: the named coins are gone, the change coin (if any) is new, and
/// the credit goes to `caller`.
pub open spec fn withdraw_post(
    coins0: Map<CoinId, Coin>,
    next0: u64,
    coins1: Map<CoinId, Coin>,
    next1: u64,
    ids: Seq<CoinId>,
    amount: u64,
    caller: Address,
    r: Result<Withdrawal, BridgeError>,
) -> bool {
    match withdraw_outcome(coins0, next0, ids, amount) {
        Ok((owner, total)) => {
            let spent = coins0.remove_keys(ids.to_set());
            let change_coin = Coin { owner, amount: (total - amount) as u64, asset_id: base_asset() };
            &&& r is Ok
            &&& r->Ok_0.recipient == caller
            &&& r->Ok_0.value == amount * CONVERSION_FACTOR
            &&& total == amount ==> {
                &&& r->Ok_0.change == None::<CoinId>
                &&& coins1 == spent
                &&& next1 == next0
            }
            &&& total > amount ==> {
                &&& r->Ok_0.change == Some(minted_id(next0))
                &&& !coins0.contains_key(minted_id(next0))
                &&& coins1 == spent.insert(minted_id(next0), change_coin)
                &&& next1 == next0 + 1
            }
        },
        Err(e) => r == Err::<Withdrawal, BridgeError>(e) && coins1 == coins0 && next1 == next0,
    }
}

/// Once validation has refused, it refuses with the same error on every
/// longer prefix.
pub proof fn lemma_scan_err_persists(coins: Map<CoinId, Coin>, ids: Seq<CoinId>, k: nat, m: nat)
    requires
        k <= m,
        scan(coins, ids, k) is Err,
    ensures
        scan(coins, ids, m) == scan(coins, ids, k),
    decreases m,
{
    if m > k {
        lemma_scan_err_persists(coins, ids, k, (m - 1) as nat);
    }
}

/// A validated prefix names distinct coins of the store, all of the base
/// asset and all owned by the common owner.
pub proof fn lemma_scan_ok(coins: Map<CoinId, Coin>, ids: Seq<CoinId>, n: nat)
    requires
        n <= ids.len(),
        scan(coins, ids, n) is Ok,
    ensures
        n > 0 <==> scan(coins, ids, n)->Ok_0.0 is Some,
        forall|k: int| 0 <= k < n ==> #[trigger] coins.contains_key(ids[k]),
        forall|k: int| 0 <= k < n ==> coins[#[trigger] ids[k]].owner == scan(coins, ids, n)->Ok_0.0->0,
        forall|k: int| 0 <= k < n ==> coins[#[trigger] ids[k]].asset_id == base_asset(),
        forall|a: int, b: int| 0 <= a < b < n ==> #[trigger] ids[a] != #[trigger] ids[b],
        scan(coins, ids, n)->Ok_0.1 == total_of(coins, ids, n),
    decreases n,
{
    if n > 0 {
        lemma_scan_ok(coins, ids, (n - 1) as nat);
        let id = ids[n - 1];
        assert forall|a: int| 0 <= a < n - 1 implies ids[a] != id by {
            assert(ids.subrange(0, n - 1)[a] == ids[a]);
        }
    }
}

/// The bridge's ledger: the coin store and the identifier allocator that
/// names the coins it mints.
pub struct FvmLoaderEntrypoint {
    store: CoinStore,
    allocator: IdentifierAllocator,
}

impl FvmLoaderEntrypoint {
    /// The coins in the store.
    pub closed spec fn coins(&self) -> Map<CoinId, Coin> {
        self.store@
    }

    /// The index that the next minted coin is named after.
    pub closed spec fn next_index_value(&self) -> u64 {
        self.allocator.next_value()
    }

    /// The store is well formed and holds only coins that the bridge minted.
    pub closed spec fn wf(&self) -> bool {
        self.store.wf() && ledger_ok(self.store@)
    }

    /// Every coin of a well-formed ledger holds a positive amount.
    pub proof fn lemma_wf_ledger_ok(&self)
        requires
            self.wf(),
        ensures
            ledger_ok(self.coins()),
    {
    }

    /// An empty ledger.
    pub fn new() -> (r: Self)
        ensures
            r.wf(),
            r.coins() == Map::<CoinId, Coin>::empty(),
            r.next_index_value() == 0,
    {
        FvmLoaderEntrypoint { store: CoinStore::new(), allocator: IdentifierAllocator::new() }
    }

    /// An empty ledger whose identifier counter resumes at `next`.
    pub fn with_next_index(next: u64) -> (r: Self)
        ensures
            r.wf(),
            r.coins() == Map::<CoinId, Coin>::empty(),
            r.next_index_value() == next,
    {
        FvmLoaderEntrypoint { store: CoinStore::new(), allocator: IdentifierAllocator::starting_at(next) }
    }

    /// Stores a coin that the host holds under `id`. A coin of amount zero,
    /// or a key already taken, is refused and changes nothing.
    pub fn load_coin(&mut self, id: CoinId, coin: Coin) -> (r: Result<(), BridgeError>)
        requires
            old(self).wf(),
        ensures
            final(self).wf(),
            coin.amount == 0 ==> r == Err::<(), BridgeError>(BridgeError::ZeroAmount),
            coin.amount > 0 && old(self).coins().contains_key(id) ==> r == Err::<(), BridgeError>(BridgeError::CoinExists),
            r is Err ==> *final(self) == *old(self),
            coin.amount > 0 && !old(self).coins().contains_key(id) ==> {
                &&& r is Ok
                &&& final(self).coins() == old(self).coins().insert(id, coin)
                &&& final(self).next_index_value() == old(self).next_index_value()
            },
    {
        if coin.amount == 0 {
            return Err(BridgeError::ZeroAmount);
        }
        if self.store.get(&id).is_some() {
            return Err(BridgeError::CoinExists);
        }
        let inserted = self.store.insert(id, coin);
        assert(inserted);
        Ok(())
    }

    /// The coin stored under `id`, if any.
    pub fn coin(&self, id: &CoinId) -> (r: Option<Coin>)
        requires
            self.wf(),
        ensures
            r == (if self.coins().contains_key(*id) { Some(self.coins()[*id]) } else { None::<Coin> }),
    {
        self.store.get(id)
    }

    /// Mints a coin of `value / CONVERSION_FACTOR` units of the base asset
    /// for `recipient`, paid with `value` account-domain units out of the
    /// caller's `balance`. The coin's key is the next allocated index, at
    /// output 0; a key already taken is refused. A refused deposit changes
    /// nothing.
    pub fn deposit(&mut self, recipient: Address, value: u128, balance: u128) -> (r: Result<CoinId, BridgeError>)
        requires
            old(self).wf(),
        ensures
            final(self).wf(),
            deposit_post(old(self).coins(), old(self).next_index_value(), final(self).coins(),
                final(self).next_index_value(), recipient, value, balance, r),
            r is Err ==> *final(self) == *old(self),
    {
        if balance < value {
            return Err(BridgeError::InsufficientBalance);
        }
        if value == 0 {
            return Err(BridgeError::ZeroDeposit);
        }
        let amount = match to_utxo_units(value) {
            Ok(a) => a,
            Err(e) => return Err(e),
        };
        let index = self.allocator.current();
        if index == u64::MAX {
            return Err(BridgeError::IdentifiersExhausted);
        }
        let id = CoinId { tx_id: tx_id_of(index), output_index: 0 };
        if self.store.get(&id).is_some() {
            return Err(BridgeError::CoinExists);
        }
        let allocated = self.allocator.next_index();
        assert(allocated == Ok::<u64, BridgeError>(index));
        let coin = Coin { owner: recipient, amount, asset_id: base_asset_id() };
        assert(amount > 0) by (nonlinear_arith)
            requires value > 0, value % CONVERSION_FACTOR == 0, amount == value / CONVERSION_FACTOR;
        let inserted = self.store.insert(id, coin);
        assert(inserted);
        Ok(id)
    }

    /// Spends the coins `coin_ids` to withdraw `amount` coin-domain units
    /// to `caller`. The coins must be present, distinct, of the base asset
    /// and of one owner, and hold at least `amount` together. They are
    /// deleted; what they held beyond `amount` is minted as one change coin
    /// for their owner, keyed by the next allocated index at output 0, which
    /// must not be taken. The
    /// result names the account-domain value to credit to `caller`. A refused
    /// withdrawal changes nothing.
    #[verifier::loop_isolation(false)]
    pub fn withdraw(&mut self, coin_ids: &Vec<CoinId>, amount: u64, caller: Address) -> (r: Result<Withdrawal, BridgeError>)
        requires
            old(self).wf(),
        ensures
            final(self).wf(),
            withdraw_post(old(self).coins(), old(self).next_index_value(), final(self).coins(),
                final(self).next_index_value(), coin_ids@, amount, caller, r),
            r is Err ==> *final(self) == *old(self),
    {
        let ghost coins0 = self.store@;
        let ghost ids = coin_ids@;
        let n = coin_ids.len();
        let mut owner: Option<Address> = None;
        let mut total: u64 = 0;
        let mut i: usize = 0;
        while i < n
            invariant
                self.wf(),
                *self == *old(self),
                coins0 == self.store@,
                ids == coin_ids@,
                n == ids.len(),
                i <= n,
                scan(coins0, ids, i as nat) == Ok::<(Option<Address>, nat), BridgeError>((owner, total as nat)),
            decreases n - i,
        {
            let id = coin_ids[i];
            let coin = match self.store.get(&id) {
                Some(c) => c,
                None => {
                    proof { lemma_scan_err_persists(coins0, ids, (i + 1) as nat, n as nat); }
                    return Err(BridgeError::CoinNotFound);
                },
            };
            let mut j: usize = 0;
            while j < i
                invariant
                    i < n,
                    n == coin_ids@.len(),
                    id == coin_ids@[i as int],
                    j <= i,
                    forall|k: int| 0 <= k < j ==> coin_ids@[k] != id,
                decreases i - j,
            {
                if coin_ids[j] == id {
                    proof {
                        assert(ids.subrange(0, i as int)[j as int] == id);
                        lemma_scan_err_persists(coins0, ids, (i + 1) as nat, n as nat);
                    }
                    return Err(BridgeError::DuplicateCoin);
                }
                j = j + 1;
            }
            assert(!ids.subrange(0, i as int).contains(id)) by {
                assert forall|k: int| 0 <= k < i implies ids.subrange(0, i as int)[k] != id by {
                    assert(ids.subrange(0, i as int)[k] == ids[k]);
                }
            }
            if coin.amount > u64::MAX - total {
                proof { lemma_scan_err_persists(coins0, ids, (i + 1) as nat, n as nat); }
                return Err(BridgeError::BalanceOverflow);
            }
            if coin.asset_id != base_asset_id() {
                proof { lemma_scan_err_persists(coins0, ids, (i + 1) as nat, n as nat); }
                return Err(BridgeError::AssetMismatch);
            }
            match owner {
                Some(o) => {
                    if o != coin.owner {
                        proof { lemma_scan_err_persists(coins0, ids, (i + 1) as nat, n as nat); }
                        return Err(BridgeError::OwnerMismatch);
                    }
                },
                None => {},
            }
            owner = Some(coin.owner);
            total = total + coin.amount;
            i = i + 1;
        }
        let common_owner = match owner {
            Some(o) => o,
            None => return Err(BridgeError::EmptyCoinList),
        };
        if total < amount {
            return Err(BridgeError::InsufficientCoinBalance);
        }
        let remainder = total - amount;
        let change_index = if remainder > 0 {
            let index = self.allocator.current();
            if index == u64::MAX {
                return Err(BridgeError::IdentifiersExhausted);
            }
            if self.store.get(&CoinId { tx_id: tx_id_of(index), output_index: 0 }).is_some() {
                return Err(BridgeError::CoinExists);
            }
            let allocated = self.allocator.next_index();
            assert(allocated == Ok::<u64, BridgeError>(index));
            Some(index)
        } else {
            None
        };
        proof { lemma_scan_ok(coins0, ids, n as nat); }
        let ghost next0 = old(self).allocator.next_value();
        let mut k: usize = 0;
        while k < n
            invariant
                self.store.wf(),
                ids == coin_ids@,
                n == ids.len(),
                k <= n,
                self.allocator.next_value() == if remainder > 0 { next0 + 1 } else { next0 as int },
                ledger_ok(coins0),
                remainder == 0 ==> change_index is None,
                remainder > 0 ==> change_index == Some(next0) && !coins0.contains_key(minted_id(next0)),
                forall|a: int| 0 <= a < n ==> #[trigger] coins0.contains_key(ids[a]),
                forall|a: int, b: int| 0 <= a < b < n ==> #[trigger] ids[a] != #[trigger] ids[b],
                self.store@ == coins0.remove_keys(ids.subrange(0, k as int).to_set()),
            decreases n - k,
        {
            let ghost before = self.store@;
            self.store.remove(&coin_ids[k]);
            let ghost done = ids.subrange(0, k as int);
            let ghost now = ids.subrange(0, k + 1);
            assert(now.to_set() =~= done.to_set().insert(ids[k as int])) by {
                assert forall|c: CoinId| now.contains(c) <==> (done.contains(c) || c == ids[k as int]) by {
                    if now.contains(c) {
                        let j = choose|j: int| 0 <= j < now.len() && now[j] == c;
                        if j < k {
                            assert(done[j] == c);
                        }
                    }
                    if done.contains(c) {
                        let j = choose|j: int| 0 <= j < done.len() && done[j] == c;
                        assert(now[j] == c);
                    }
                    if c == ids[k as int] {
                        assert(now[k as int] == c);
                    }
                }
            }
            assert(self.store@ =~= coins0.remove_keys(ids.subrange(0, k + 1).to_set()));
            k = k + 1;
        }
        assert(ids.subrange(0, n as int) =~= ids);
        let change = match change_index {
            Some(index) => {
                let id = CoinId { tx_id: tx_id_of(index), output_index: 0 };
                let coin = Coin { owner: common_owner, amount: remainder, asset_id: base_asset_id() };
                let inserted = self.store.insert(id, coin);
                assert(inserted);
                Some(id)
            },
            None => None,
        };
        Ok(Withdrawal { recipient: caller, value: to_account_units(amount), change })
    }
}

/// The four entrypoints of the bridge: the two processors, and the two
/// operations that hand a transaction to the execution engine, in simulation
/// and in commit mode.
pub trait RouterAPI: Sized {
    /// The coins of the ledger.
    spec fn ledger(&self) -> Map<CoinId, Coin>;

    /// The index that the next minted coin is named after.
    spec fn ledger_next(&self) -> u64;

    spec fn ledger_wf(&self) -> bool;

    fn fvm_deposit(&mut self, recipient: Address, value: u128, balance: u128) -> (r: Result<CoinId, BridgeError>)
        requires
            old(self).ledger_wf(),
        ensures
            final(self).ledger_wf(),
            deposit_post(old(self).ledger(), old(self).ledger_next(), final(self).ledger(),
                final(self).ledger_next(), recipient, value, balance, r),
    ;

    fn fvm_withdraw(&mut self, coin_ids: &Vec<CoinId>, amount: u64, caller: Address) -> (r: Result<Withdrawal, BridgeError>)
        requires
            old(self).ledger_wf(),
        ensures
            final(self).ledger_wf(),
            withdraw_post(old(self).ledger(), old(self).ledger_next(), final(self).ledger(),
                final(self).ledger_next(), coin_ids@, amount, caller, r),
    ;

    fn fvm_dry_run(&mut self, message: &[u8]) -> (r: TxForward)
        ensures
            r.payload@ == message@,
            !r.commit,
            r.gas_limit == u64::MAX,
            *final(self) == *old(self),
    ;

    fn fvm_exec(&mut self, message: &[u8]) -> (r: TxForward)
        ensures
            r.payload@ == message@,
            r.commit,
            r.gas_limit == u64::MAX,
            *final(self) == *old(self),
    ;
}

/// A copy of `message` for the execution engine.
fn forward(message: &[u8], commit: bool) -> (r: TxForward)
    ensures
        r.payload@ == message@,
        r.commit == commit,
        r.gas_limit == u64::MAX,
{
    let mut payload: Vec<u8> = Vec::new();
    let mut i: usize = 0;
    while i < message.len()
        invariant
            i <= message@.len(),
            payload@ == message@.subrange(0, i as int),
        decreases message@.len() - i,
    {
        payload.push(message[i]);
        i = i + 1;
        assert(payload@ =~= message@.subrange(0, i as int));
    }
    assert(payload@ =~= message@);
    TxForward { payload, commit, gas_limit: u64::MAX }
}

impl RouterAPI for FvmLoaderEntrypoint {
    open spec fn ledger(&self) -> Map<CoinId, Coin> {
        self.coins()
    }

    open spec fn ledger_next(&self) -> u64 {
        self.next_index_value()
    }

    open spec fn ledger_wf(&self) -> bool {
        self.wf()
    }

    fn fvm_deposit(&mut self, recipient: Address, value: u128, balance: u128) -> (r: Result<CoinId, BridgeError>) {
        self.deposit(recipient, value, balance)
    }

    fn fvm_withdraw(&mut self, coin_ids: &Vec<CoinId>, amount: u64, caller: Address) -> (r: Result<Withdrawal, BridgeError>) {
        self.withdraw(coin_ids, amount, caller)
    }

    fn fvm_dry_run(&mut self, message: &[u8]) -> (r: TxForward) {
        forward(message, false)
    }

    fn fvm_exec(&mut self, message: &[u8]) -> (r: TxForward) {
        forward(message, true)
    }
}

} // verus!
