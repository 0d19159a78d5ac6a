//! Contract versioning shared by all contracts: a stored version that
//! defaults to 1, a compatibility check, and the staged migration path
//! v0 -> v1 -> v2 -> v3.

use vstd::prelude::*;

verus! {

/// The newest storage layout these contracts understand.
pub const CURRENT_VERSION: u32 = 1;

/// The highest version from which a migration step is defined.
pub const LAST_MIGRATABLE_VERSION: u32 = 2;

/// The version a contract reports: what is stored, or 1 when nothing is.
pub open spec fn stored_version(v: Option<u32>) -> u32 {
    match v {
        Some(x) => x,
        None => 1,
    }
}

/// Whether a stored version is one these contracts can run on.
pub open spec fn version_supported(v: u32) -> bool {
    v <= CURRENT_VERSION
}

/// The version reached by one migration step from `v`, if a step is defined.
pub open spec fn migration_target(v: u32) -> Option<u32> {
    if v <= LAST_MIGRATABLE_VERSION {
        Some((v + 1) as u32)
    } else {
        None
    }
}

/// The version reported for what storage holds.
pub fn read_version(v: Option<u32>) -> (r: u32)
    ensures
        r == stored_version(v),
{
    match v {
        Some(x) => x,
        None => 1,
    }
}

/// One migration step: v0 -> v1, v1 -> v2, v2 -> v3; no step beyond.
pub fn migration_step(current: u32) -> (r: Option<u32>)
    ensures
        r == migration_target(current),
{
    match current {
        0 => Some(1),
        1 => Some(2),
        2 => Some(3),
        _ => None,
    }
}

/// A migration step always moves to the next version, and only the
/// versions up to `LAST_MIGRATABLE_VERSION` have one.
pub proof fn law_migration_increments(v: u32)
    ensures
        migration_target(v) is Some <==> v <= LAST_MIGRATABLE_VERSION,
        migration_target(v) matches Some(n) ==> n == v + 1 && n > v,
{
}

} // verus!
