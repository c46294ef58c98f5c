//! The standard snapshot container: a keyed, immutable in-memory map.

use vstd::prelude::*;

use crate::common_types::Secret;
use crate::common_types::SecretVaultKeyView;
use crate::common_types::SecretVaultRef;
use crate::errors::SecretVaultResult;
use crate::vault_snapshot::secrets_lookup;
use crate::vault_snapshot::SecretVaultSnapshot;
use crate::vault_snapshot::SecretVaultSnapshotBuilder;

verus! {

/// An immutable keyed container of decrypted secrets.
pub struct SecretVaultHashMapSnapshot {
    secrets_map: Vec<Secret>,
}

impl SecretVaultHashMapSnapshot {
    /// A snapshot holding exactly the given secrets, keyed by the key in
    /// each secret's metadata.
    pub fn with_secrets(secrets: Vec<Secret>) -> (r: Self)
        ensures
            forall|k: SecretVaultKeyView|
                #![trigger r.snap_entry(k)]
                r.snap_entry(k) == secrets_lookup(secrets@, k),
    {
        Self { secrets_map: secrets }
    }
}

impl SecretVaultSnapshot for SecretVaultHashMapSnapshot {
    closed spec fn snap_entry(&self, k: SecretVaultKeyView) -> Option<
        crate::common_types::SecretView,
    > {
        secrets_lookup(self.secrets_map@, k)
    }

    fn get_secret_by_ref(&self, secret_ref: &SecretVaultRef) -> (r: SecretVaultResult<
        Option<Secret>,
    >) {
        let mut i: usize = self.secrets_map.len();
        proof {
            assert(self.secrets_map@.take(self.secrets_map@.len() as int) =~= self.secrets_map@);
        }
        while i > 0
            invariant
                i <= self.secrets_map@.len(),
                secrets_lookup(self.secrets_map@, secret_ref@.key) == secrets_lookup(
                    self.secrets_map@.take(i as int),
                    secret_ref@.key,
                ),
            decreases i,
        {
            i = i - 1;
            proof {
                assert(self.secrets_map@.take(i + 1).last() == self.secrets_map@[i as int]);
                assert(self.secrets_map@.take(i + 1).drop_last() =~= self.secrets_map@.take(
                    i as int,
                ));
            }
            if self.secrets_map[i].metadata.key == secret_ref.key {
                return Ok(Some(self.secrets_map[i].clone()));
            }
        }
        proof {
            assert(self.secrets_map@.take(0) =~= Seq::<Secret>::empty());
        }
        Ok(None)
    }
}

/// Builds the standard keyed snapshot.
pub struct SecretVaultHashMapSnapshotBuilder;

impl SecretVaultHashMapSnapshotBuilder {
    pub fn new() -> (r: Self) {
        Self {  }
    }
}

impl SecretVaultSnapshotBuilder<SecretVaultHashMapSnapshot> for SecretVaultHashMapSnapshotBuilder {
    fn build_snapshot(&self, secrets: Vec<Secret>) -> (r: SecretVaultHashMapSnapshot) {
        SecretVaultHashMapSnapshot::with_secrets(secrets)
    }
}

} // verus!
