//! Accounting engine of a bridge between an account-balance domain and an
//! unspent-coin domain: deposits mint coins, withdrawals spend coins, re-mint
//! the change and report the value to credit on the account side.

mod allocator;
mod bridge;
mod laws;
mod store;
mod types;
mod units;

pub use allocator::{allocation_step, IdentifierAllocator};
pub use bridge::{
    deposit_outcome, deposit_post, ledger_ok, minted_id, scan, total_of, withdraw_outcome, withdraw_post,
    FvmLoaderEntrypoint, RouterAPI, TxForward, Withdrawal,
};
pub use laws::{
    law_allocations_increase, law_change_coin, law_deposit_mints_quotient, law_exact_withdrawal_mints_nothing,
    law_mixed_owners_refused, law_overdraw_refused, law_round_trip,
    law_withdrawal_conserves, law_zero_deposit_refused,
};
pub use store::CoinStore;
pub use types::{base_asset, base_asset_id, spec_tx_id, tx_id_of, Address, AssetId, BridgeError, Bytes32, Coin, CoinId, TxId};
pub use units::{to_account_units, to_utxo_units, CONVERSION_FACTOR};
