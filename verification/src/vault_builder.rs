//! Step-by-step construction of a vault.

use vstd::prelude::*;

use crate::common_types::SecretVaultRef;
use crate::encryption::SecretVaultEncryption;
use crate::encryption::SecretVaultNoEncryption;
use crate::errors::SecretVaultResult;
use crate::secrets_source::SecretsSource;
use crate::vault::SecretVault;
use crate::vault_store::refs_views;

verus! {

/// Builds a vault from a source, an optional encryption strategy, and an
/// initial registration set.
pub struct SecretVaultBuilder<S: SecretsSource, E: SecretVaultEncryption = SecretVaultNoEncryption> {
    source: S,
    encryption: E,
    refs: Vec<SecretVaultRef>,
}

impl<S: SecretsSource> SecretVaultBuilder<S, SecretVaultNoEncryption> {
    /// Starts a builder over a source, without encryption.
    pub fn with_source(source: S) -> (r: SecretVaultBuilder<S, SecretVaultNoEncryption>)
        ensures
            r.spec_source() == source,
            r.spec_refs().len() == 0,
    {
        SecretVaultBuilder { source, encryption: SecretVaultNoEncryption {  }, refs: Vec::new() }
    }
}

impl<S: SecretsSource, E: SecretVaultEncryption> SecretVaultBuilder<S, E> {
    /// The source the vault will pull from.
    pub closed spec fn spec_source(&self) -> S {
        self.source
    }

    /// The encryption strategy the vault will file under.
    pub closed spec fn spec_encryption(&self) -> E {
        self.encryption
    }

    /// The registrations the vault will start with.
    pub closed spec fn spec_refs(&self) -> Seq<SecretVaultRef> {
        self.refs@
    }

    /// Swaps in an encryption strategy; registrations start afresh.
    pub fn with_encryption<NE: SecretVaultEncryption>(self, encryption: NE) -> (r:
        SecretVaultBuilder<S, NE>)
        ensures
            r.spec_source() == self.spec_source(),
            r.spec_encryption() == encryption,
            r.spec_refs().len() == 0,
    {
        SecretVaultBuilder { source: self.source, encryption, refs: Vec::new() }
    }

    /// Drops encryption; registrations start afresh.
    pub fn without_encryption(self) -> (r: SecretVaultBuilder<S, SecretVaultNoEncryption>)
        ensures
            r.spec_source() == self.spec_source(),
            r.spec_refs().len() == 0,
    {
        SecretVaultBuilder {
            source: self.source,
            encryption: SecretVaultNoEncryption {  },
            refs: Vec::new(),
        }
    }

    /// Sets the initial registration set.
    pub fn with_secret_refs(self, secret_refs: Vec<&SecretVaultRef>) -> (r: SecretVaultBuilder<
        S,
        E,
    >)
        ensures
            r.spec_source() == self.spec_source(),
            r.spec_encryption() == self.spec_encryption(),
            refs_views(r.spec_refs()) == secret_refs@.map_values(|x: &SecretVaultRef| x@),
    {
        let mut refs: Vec<SecretVaultRef> = Vec::new();
        let mut i: usize = 0;
        while i < secret_refs.len()
            invariant
                i <= secret_refs@.len(),
                refs@.len() == i,
                forall|j: int| 0 <= j < i ==> (#[trigger] refs@[j])@ == secret_refs@[j]@,
            decreases secret_refs@.len() - i,
        {
            refs.push(secret_refs[i].clone());
            i = i + 1;
        }
        proof {
            assert(refs_views(refs@) =~= secret_refs@.map_values(|x: &SecretVaultRef| x@));
        }
        SecretVaultBuilder { source: self.source, encryption: self.encryption, refs }
    }

    /// Builds the vault.
    pub fn build(self) -> (r: SecretVaultResult<SecretVault<S, E>>)
        ensures
            r is Ok,
            r matches Ok(v) ==> v.wf() && v.spec_source() == self.spec_source()
                && v.spec_store().spec_encrypter() == self.spec_encryption()
                && v.spec_store().spec_len() == 0 && refs_views(v.spec_refs()) == refs_views(
                self.spec_refs(),
            ) && (forall|k: crate::common_types::SecretVaultKeyView|
                v.spec_store().spec_entry(k) is None),
    {
        let refs = self.refs;
        let mut vault = match SecretVault::new(self.source, self.encryption) {
            Ok(v) => v,
            Err(e) => {
                return Err(e);
            },
        };
        let mut borrowed: Vec<&SecretVaultRef> = Vec::new();
        let mut i: usize = 0;
        while i < refs.len()
            invariant
                i <= refs@.len(),
                borrowed@.len() == i,
                forall|j: int| 0 <= j < i ==> (#[trigger] borrowed@[j])@ == refs@[j]@,
            decreases refs@.len() - i,
        {
            borrowed.push(&refs[i]);
            i = i + 1;
        }
        vault.register_secret_refs(borrowed);
        proof {
            assert(refs_views(vault.spec_refs()) =~= refs_views(refs@));
        }
        Ok(vault)
    }
}

} // verus!
