use vstd::prelude::*;

verus! {

/// A 32-byte identifier, held as four big-endian 64-bit words.
#[derive(Clone, Copy, Debug, PartialEq, Eq, Structural)]
pub struct Bytes32(pub u64, pub u64, pub u64, pub u64);

/// Owner of a coin, and recipient of account-domain value.
pub type Address = Bytes32;

/// Identifier of an asset.
pub type AssetId = Bytes32;

/// Identifier of the transaction that created a coin.
pub type TxId = Bytes32;

/// Key of a coin in the coin store.
#[derive(Clone, Copy, Debug, PartialEq, Eq, Structural)]
pub struct CoinId {
    pub tx_id: TxId,
    pub output_index: u16,
}

/// An indivisible unit of value in the coin domain.
#[derive(Clone, Copy, Debug, PartialEq, Eq, Structural)]
pub struct Coin {
    pub owner: Address,
    pub amount: u64,
    pub asset_id: AssetId,
}

/// Why a deposit or a withdrawal was refused. A refused call changes nothing.
#[derive(Clone, Copy, Debug, PartialEq, Eq, Structural)]
pub enum BridgeError {
    /// The caller's account balance is below the deposited value.
    InsufficientBalance,
    /// A deposit of zero.
    ZeroDeposit,
    /// The value is not a whole number of coin-domain units.
    InexactConversion,
    /// The converted value does not fit in a coin amount.
    AmountOverflow,
    /// A withdrawal that names no coin.
    EmptyCoinList,
    /// A named coin is not in the store.
    CoinNotFound,
    /// A coin is named twice in one withdrawal.
    DuplicateCoin,
    /// A coin carries an asset other than the base asset.
    AssetMismatch,
    /// The coins of one withdrawal have different owners.
    OwnerMismatch,
    /// The coins' total does not fit in a coin amount.
    BalanceOverflow,
    /// The coins' total is below the requested amount.
    InsufficientCoinBalance,
    /// The identifier counter has no value left.
    IdentifiersExhausted,
    /// The key of a coin to store is already taken.
    CoinExists,
    /// A coin of amount zero.
    ZeroAmount,
}

/// The single asset that this bridge mints and accepts.
pub open spec fn base_asset() -> AssetId {
    Bytes32(0xf8f8b6283d7fa5b6u64, 0x72b530cbb84fcccbu64, 0x4ff8dc40f8176ef4u64, 0x544ddb1f1952ad07u64)
}

/// The transaction identifier derived from an allocated index: the index
/// written big-endian over 32 bytes.
pub open spec fn spec_tx_id(index: u64) -> TxId {
    Bytes32(0, 0, 0, index)
}

pub fn base_asset_id() -> (r: AssetId)
    ensures
        r == base_asset(),
{
    Bytes32(0xf8f8b6283d7fa5b6u64, 0x72b530cbb84fcccbu64, 0x4ff8dc40f8176ef4u64, 0x544ddb1f1952ad07u64)
}

pub fn tx_id_of(index: u64) -> (r: TxId)
    ensures
        r == spec_tx_id(index),
{
    Bytes32(0, 0, 0, index)
}

} // verus!
