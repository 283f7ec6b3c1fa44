use crate::types::BridgeError;
use vstd::prelude::*;

verus! {

/// Account-domain units per coin-domain unit.
pub const CONVERSION_FACTOR: u128 = 1_000_000_000;

/// Converts an account-domain value into coin-domain units. Only an exact
/// multiple of the conversion factor converts, and only to a value that a
/// coin amount can hold.
pub fn to_utxo_units(value: u128) -> (r: Result<u64, BridgeError>)
    ensures
        value % CONVERSION_FACTOR != 0 ==> r == Err::<u64, BridgeError>(BridgeError::InexactConversion),
        value % CONVERSION_FACTOR == 0 && value / CONVERSION_FACTOR > u64::MAX ==> r == Err::<u64, BridgeError>(BridgeError::AmountOverflow),
        value % CONVERSION_FACTOR == 0 && value / CONVERSION_FACTOR <= u64::MAX ==> r == Ok::<u64, BridgeError>((value / CONVERSION_FACTOR) as u64),
{
    if value % CONVERSION_FACTOR != 0 {
        return Err(BridgeError::InexactConversion);
    }
    let units = value / CONVERSION_FACTOR;
    if units > u64::MAX as u128 {
        return Err(BridgeError::AmountOverflow);
    }
    Ok(units as u64)
}

/// Converts a coin-domain amount into account-domain units.
pub fn to_account_units(value: u64) -> (r: u128)
    ensures
        r == value * CONVERSION_FACTOR,
{
    assert(value * CONVERSION_FACTOR <= u64::MAX * CONVERSION_FACTOR) by (nonlinear_arith)
        requires value <= u64::MAX;
    value as u128 * CONVERSION_FACTOR
}

} // verus!
