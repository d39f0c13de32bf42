use vstd::prelude::*;

verus! {

/// Minimum TTL (in ledgers) before a persistent entry is eligible for extension.
pub const VAULT_TTL_THRESHOLD: u32 = 1000;

/// Default persistent storage TTL for vault entries, in ledgers (about 11.6 days).
pub const VAULT_TTL_LEDGERS: u32 = 200_000;

/// Approximate ledger close time in seconds.
pub const LEDGER_SECOND: u32 = 5;

/// Maximum persistent entry TTL in ledgers (about 180 days).
pub const MAX_PERSISTENT_TTL: u32 = 3_110_400;

/// Storage TTL, in ledgers, for a vault with the given check-in interval:
/// twice the interval, saturated at `u32::MAX`, in ledgers, clamped to the
/// storage bounds.
pub open spec fn spec_vault_ttl_ledgers(check_in_interval: u64) -> int {
    let doubled = if 2 * check_in_interval > u32::MAX {
        u32::MAX as int
    } else {
        2 * check_in_interval
    };
    let ledgers = doubled / (LEDGER_SECOND as int);
    if ledgers < VAULT_TTL_LEDGERS {
        VAULT_TTL_LEDGERS as int
    } else if ledgers > MAX_PERSISTENT_TTL {
        MAX_PERSISTENT_TTL as int
    } else {
        ledgers
    }
}

/// Computes a persistent storage TTL (in ledgers) for a vault with the given
/// check-in interval: a 2x safety buffer over the interval, in ledgers,
/// bounded below by the default TTL and above by the storage maximum.
pub fn vault_ttl_ledgers(check_in_interval: u64) -> (r: u32)
    ensures
        r == spec_vault_ttl_ledgers(check_in_interval),
        VAULT_TTL_LEDGERS <= r <= MAX_PERSISTENT_TTL,
{
    let doubled: u32 = if check_in_interval > (u32::MAX / 2) as u64 { u32::MAX } else { (check_in_interval * 2) as u32 };
    let ledgers: u32 = doubled / LEDGER_SECOND;
    if ledgers < VAULT_TTL_LEDGERS {
        VAULT_TTL_LEDGERS
    } else if ledgers > MAX_PERSISTENT_TTL {
        MAX_PERSISTENT_TTL
    } else {
        ledgers
    }
}

} // verus!
