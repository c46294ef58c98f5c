//! The encryption boundary of the vault.
//!
//! A strategy turns cleartext into ciphertext on insert and back on read,
//! binding each ciphertext to the key it is filed under through the AAD.
//! The canonical AAD of a vault key is its secret name.

use vstd::prelude::*;

use crate::common_types::SecretVaultKey;
use crate::common_types::SecretVaultKeyView;
use crate::errors::SecretVaultError;
use crate::errors::SecretVaultResult;
use crate::value::copy_bytes;
use crate::value::SecretValue;

verus! {

/// The longest payload one encryption call accepts.
pub const MAX_AEAD_PLAINTEXT_LEN: usize = 0xFFFF_FFFF;

/// An opaque ciphertext: payload, tag and framing together.
pub struct EncryptedSecretValue(pub Vec<u8>);

impl View for EncryptedSecretValue {
    type V = Seq<u8>;

    open spec fn view(&self) -> Seq<u8> {
        self.0@
    }
}

impl EncryptedSecretValue {
    pub fn new(value: Vec<u8>) -> (r: Self)
        ensures
            r@ == value@,
    {
        Self(value)
    }

    pub fn value(&self) -> (r: &Vec<u8>)
        ensures
            r@ == self@,
    {
        &self.0
    }
}

impl Clone for EncryptedSecretValue {
    fn clone(&self) -> (r: Self)
        ensures
            r@ == self@,
    {
        Self(copy_bytes(&self.0))
    }
}

impl PartialEq for EncryptedSecretValue {
    fn eq(&self, other: &Self) -> (r: bool) {
        let r = self.0 == other.0;
        proof {
            if r {
                assert(self@ =~= other@);
            }
        }
        r
    }
}

impl Eq for EncryptedSecretValue {

}

impl vstd::std_specs::cmp::PartialEqSpecImpl for EncryptedSecretValue {
    open spec fn obeys_eq_spec() -> bool {
        true
    }

    open spec fn eq_spec(&self, other: &Self) -> bool {
        self@ == other@
    }
}

impl SecretVaultKey {
    /// The additional authenticated data a ciphertext is bound to: the
    /// secret's name.
    #[inline]
    pub fn to_aad(&self) -> (r: &String)
        ensures
            r@ == self@.secret_name,
    {
        self.secret_name.value()
    }
}

/// An encryption strategy of the vault.
///
/// `decrypt_model` is the strategy's mathematical face: what decrypting a
/// ciphertext under a key would yield, or nothing where the ciphertext does
/// not authenticate under that key.  A `reliable` strategy never fails
/// transiently: decryption succeeds exactly where the model has a value.
pub trait SecretVaultEncryption: Sized {
    /// What decrypting `ciphertext` under `key` yields.
    spec fn decrypt_model(&self, key: SecretVaultKeyView, ciphertext: Seq<u8>) -> Option<Seq<u8>>;

    /// Whether decryption is free of transient failure.
    spec fn reliable(&self) -> bool;

    /// Encrypts a cleartext under a vault key.  A reliable strategy
    /// accepts every payload within the size cap.
    fn encrypt_value(
        &self,
        secret_vault_key: &SecretVaultKey,
        secret_value: &SecretValue,
    ) -> (r: SecretVaultResult<EncryptedSecretValue>)
        ensures
            r matches Ok(ct) ==> self.decrypt_model(secret_vault_key@, ct@) == Some(
                secret_value@,
            ),
            self.reliable() && secret_value@.len() <= MAX_AEAD_PLAINTEXT_LEN ==> r is Ok;

    /// Decrypts a ciphertext under a vault key.
    fn decrypt_value(
        &self,
        secret_vault_key: &SecretVaultKey,
        encrypted_secret_value: &EncryptedSecretValue,
    ) -> (r: SecretVaultResult<SecretValue>)
        ensures
            r matches Ok(v) ==> self.decrypt_model(secret_vault_key@, encrypted_secret_value@)
                == Some(v@),
            self.reliable() ==> ((r is Ok) <==> self.decrypt_model(
                secret_vault_key@,
                encrypted_secret_value@,
            ) is Some),
            self.reliable() && r is Err ==> r matches Err(
                SecretVaultError::EncryptionError(_),
            );
}

/// The identity strategy: ciphertext is cleartext, kept for explicit
/// opt-out and test parity.
#[derive(Debug)]
pub struct SecretVaultNoEncryption;

impl SecretVaultEncryption for SecretVaultNoEncryption {
    open spec fn decrypt_model(&self, key: SecretVaultKeyView, ciphertext: Seq<u8>) -> Option<
        Seq<u8>,
    > {
        Some(ciphertext)
    }

    open spec fn reliable(&self) -> bool {
        true
    }

    fn encrypt_value(
        &self,
        secret_vault_key: &SecretVaultKey,
        secret_value: &SecretValue,
    ) -> (r: SecretVaultResult<EncryptedSecretValue>)
        ensures
            r matches Ok(ct) && ct@ == secret_value@,
    {
        Ok(EncryptedSecretValue::new(copy_bytes(secret_value.ref_sensitive_value())))
    }

    fn decrypt_value(
        &self,
        secret_vault_key: &SecretVaultKey,
        encrypted_secret_value: &EncryptedSecretValue,
    ) -> (r: SecretVaultResult<SecretValue>)
        ensures
            r matches Ok(v) && v@ == encrypted_secret_value@,
    {
        Ok(SecretValue::new(copy_bytes(encrypted_secret_value.value())))
    }
}

} // verus!
