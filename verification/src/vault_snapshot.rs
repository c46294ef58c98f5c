//! Snapshots: immutable, self-contained views of a subset of the vault.
//!
//! A snapshot is built from already-decrypted secrets and keyed by the
//! key named in each secret's metadata.  It holds no reference to the
//! vault; its lifetime is independent.

use vstd::prelude::*;

use crate::common_types::Secret;
use crate::common_types::SecretVaultKeyView;
use crate::common_types::SecretVaultRef;
use crate::common_types::SecretView;
use crate::errors::SecretVaultResult;

verus! {

/// The newest secret in `s` whose metadata names `k`.
pub open spec fn secrets_lookup(s: Seq<Secret>, k: SecretVaultKeyView) -> Option<SecretView>
    decreases s.len(),
{
    if s.len() == 0 {
        None
    } else if s.last()@.metadata.key == k {
        Some(s.last()@)
    } else {
        secrets_lookup(s.drop_last(), k)
    }
}

/// A read-only, immutable collection of decrypted secrets.
pub trait SecretVaultSnapshot: Sized {
    /// The secret this snapshot holds under `k`.
    spec fn snap_entry(&self, k: SecretVaultKeyView) -> Option<SecretView>;

    /// Reads one secret by its registration.
    fn get_secret_by_ref(&self, secret_ref: &SecretVaultRef) -> (r: SecretVaultResult<
        Option<Secret>,
    >)
        ensures
            r is Ok,
            r matches Ok(opt) ==> ((opt is Some) <==> self.snap_entry(secret_ref@.key) is Some),
            r matches Ok(Some(s)) ==> self.snap_entry(secret_ref@.key) == Some(s@),
    ;

}

/// Builds a snapshot from a batch of already-decrypted secrets.
pub trait SecretVaultSnapshotBuilder<SN: SecretVaultSnapshot>: Sized {
    /// The built snapshot holds exactly the given secrets, keyed by the
    /// key in each secret's metadata; on equal keys the later one wins.
    fn build_snapshot(&self, secrets: Vec<Secret>) -> (r: SN)
        ensures
            forall|k: SecretVaultKeyView|
                #![trigger r.snap_entry(k)]
                r.snap_entry(k) == secrets_lookup(secrets@, k),
    ;
}

} // verus!
