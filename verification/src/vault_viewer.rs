//! Read-only access to a vault's secrets.
//!
//! A `SecretVaultViewer` is a read-only handle borrowing a vault's
//! store: it looks a secret up by registration or by name, with a
//! `require_*` variant that turns absence into an error.

use vstd::prelude::*;
use vstd::string::StringExecFns;

use crate::common_types::Secret;
use crate::common_types::SecretName;
use crate::common_types::SecretVaultKeyView;
use crate::common_types::SecretVaultRef;
use crate::common_types::SecretVersion;
use crate::common_types::SecretView;
use crate::encryption::SecretVaultEncryption;
use crate::errors::SecretVaultDataNotFoundError;
use crate::errors::SecretVaultError;
use crate::errors::SecretVaultErrorPublicGenericDetails;
use crate::errors::SecretVaultResult;
use crate::vault_store::SecretVaultStore;

verus! {

/// The key a bare name looks up: no version, no namespace.
pub open spec fn name_key(name: Seq<char>, version: Option<Seq<char>>) -> SecretVaultKeyView {
    SecretVaultKeyView { secret_name: name, secret_version: version, namespace: None }
}

/// A read-only handle onto a vault's store.
pub struct SecretVaultViewer<'a, E: SecretVaultEncryption> {
    store: &'a SecretVaultStore<E>,
}

impl<'a, E: SecretVaultEncryption> SecretVaultViewer<'a, E> {
    /// The store this viewer reads.
    pub closed spec fn spec_store(&self) -> SecretVaultStore<E> {
        *self.store
    }

    /// A viewer over a store.
    pub fn new(store: &'a SecretVaultStore<E>) -> (r: Self)
        ensures
            r.spec_store() == *store,
    {
        Self { store }
    }
}

impl<'a, E: SecretVaultEncryption> SecretVaultViewer<'a, E> {
    /// What this viewer serves under `k`: the decrypted entry.
    pub open spec fn viewer_entry(&self, k: SecretVaultKeyView) -> Option<SecretView> {
        match (self.spec_store().spec_plain(k), self.spec_store().spec_metadata(k)) {
            (Option::Some(v), Option::Some(m)) => Some(SecretView { value: v, metadata: m }),
            _ => None,
        }
    }

    /// Reads one secret by its registration.
    pub fn get_secret_by_ref(&self, secret_ref: &SecretVaultRef) -> (r: SecretVaultResult<
        Option<Secret>,
    >)
        ensures
            self.spec_store().wf() && self.spec_store().spec_encrypter().reliable() ==> r is Ok,
            r matches Ok(opt) ==> ((opt is Some) <==> self.viewer_entry(secret_ref@.key) is Some),
            r matches Ok(Some(s)) ==> self.viewer_entry(secret_ref@.key) == Some(s@),
    {
        self.store.get_secret(&secret_ref.key)
    }

    /// Reads one secret by name, latest version, no namespace.
    pub fn get_secret(&self, secret_name: &SecretName) -> (r: SecretVaultResult<Option<Secret>>)
        ensures
            self.spec_store().wf() && self.spec_store().spec_encrypter().reliable() ==> r is Ok,
            r matches Ok(opt) ==> ((opt is Some) <==> self.viewer_entry(
                name_key(secret_name@, None),
            ) is Some),
            r matches Ok(Some(s)) ==> self.viewer_entry(name_key(secret_name@, None)) == Some(s@),
    {
        let secret_ref = SecretVaultRef::new(secret_name.clone());
        self.get_secret_by_ref(&secret_ref)
    }

    /// Reads one secret by its registration; absence is an error.
    pub fn require_secret_by_ref(&self, secret_ref: &SecretVaultRef) -> (r: SecretVaultResult<
        Secret,
    >)
        ensures
            r matches Ok(s) ==> self.viewer_entry(secret_ref@.key) == Some(s@),
            self.spec_store().wf() && self.spec_store().spec_encrypter().reliable() ==> ((r is Ok)
                <==> self.viewer_entry(secret_ref@.key) is Some),
            self.spec_store().wf() && self.spec_store().spec_encrypter().reliable() && r is Err
                ==> (r matches Err(SecretVaultError::DataNotFoundError(d)) && d.public.code@
                == "SECRET_NOT_FOUND"@),
    {
        match self.get_secret_by_ref(secret_ref) {
            Ok(Option::Some(secret)) => Ok(secret),
            Ok(Option::None) => Err(
                SecretVaultError::DataNotFoundError(
                    SecretVaultDataNotFoundError::new(
                        SecretVaultErrorPublicGenericDetails::new("SECRET_NOT_FOUND".to_owned()),
                        String::concat(
                            "Secret doesn't exist in vault but was required: ".to_owned(),
                            secret_ref.key.secret_name.value().as_str(),
                        ),
                    ),
                ),
            ),
            Err(e) => Err(e),
        }
    }
}

} // verus!
