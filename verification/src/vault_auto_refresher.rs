//! What the periodic refresher is configured with, and what it refreshes.
//!
//! The background task itself — timers, a shutdown signal, a join handle —
//! is scheduling plumbing and lives with the runtime that owns it.  Its
//! decisions are here: the interval, and the rule for which registrations
//! a cycle refreshes.

use vstd::prelude::*;

use crate::common_types::SecretVaultRef;

verus! {

/// How often the background refresher runs.
#[derive(Clone, Copy, Debug, PartialEq, Eq, Structural)]
pub struct SecretVaultAutoRefresherOptions {
    /// The refresh interval, in milliseconds.
    pub refresh_interval_millis: u64,
}

impl SecretVaultAutoRefresherOptions {
    pub fn new(refresh_interval_millis: u64) -> (r: Self)
        ensures
            r.refresh_interval_millis == refresh_interval_millis,
    {
        Self { refresh_interval_millis }
    }
}

/// The rule a refresh cycle applies: only registrations marked for
/// automatic refresh are fetched again.
pub fn auto_refresh_enabled(secret_ref: &SecretVaultRef) -> (r: bool)
    ensures
        r == secret_ref@.auto_refresh,
{
    secret_ref.auto_refresh
}

} // verus!
