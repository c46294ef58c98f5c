//! Envelope encryption: a remote-wrapped data-encryption key, local AEAD.
//!
//! At construction a fresh session key is drawn and handed to a key
//! wrapper — the stand-in for a key-management service — and only the
//! wrapped form is kept.  Each encrypt or decrypt unwraps the session key,
//! performs the local AEAD, and drops the cleartext key again, so the
//! unwrapped key lives only inside one call.

use vstd::prelude::*;

use crate::common_types::SecretVaultKey;
use crate::common_types::SecretVaultKeyView;
use crate::encryption::EncryptedSecretValue;
use crate::encryption::SecretVaultEncryption;
use crate::errors::SecretVaultError;
use crate::errors::SecretVaultResult;
use crate::ring_encryption_support::chacha_open;
use crate::ring_encryption_support::decrypt_with_opening_key;
use crate::ring_encryption_support::encrypt_with_sealing_key;
use crate::ring_encryption_support::generate_nonce;
use crate::ring_encryption_support::generate_session_secret;
use crate::ring_encryption_support::CHACHA_KEY_LEN;
use crate::ring_encryption_support::CHACHA_NONCE_LEN;
use crate::encryption::MAX_AEAD_PLAINTEXT_LEN;
use crate::value::copy_bytes;
use crate::value::SecretValue;

verus! {

/// A key-management authority: it wraps a session key at rest and unwraps
/// it on demand.
///
/// `unwrap_model` is the wrapper's mathematical face: what unwrapping a
/// wrapped key yields.  A `reliable` wrapper never fails transiently.
pub trait SecretVaultKmsKeyWrapper: Sized {
    /// What unwrapping `wrapped` yields.
    spec fn unwrap_model(&self, wrapped: Seq<u8>) -> Option<Seq<u8>>;

    /// Whether unwrapping is free of transient failure.
    spec fn reliable(&self) -> bool;

    /// Wraps a session key for keeping at rest.
    fn wrap_session_key(&self, session_key: &SecretValue) -> (r: SecretVaultResult<
        EncryptedSecretValue,
    >)
        ensures
            r matches Ok(w) ==> self.unwrap_model(w@) == Some(session_key@);

    /// Unwraps a session key for one operation.
    fn unwrap_session_key(&self, wrapped: &EncryptedSecretValue) -> (r: SecretVaultResult<
        SecretValue,
    >)
        ensures
            r matches Ok(v) ==> self.unwrap_model(wrapped@) == Some(v@),
            self.reliable() && self.unwrap_model(wrapped@) is Some ==> r is Ok;
}

/// An in-process key wrapper for tests and local use: the wrapped form is
/// the key itself, so nothing is protected, but the envelope machinery
/// runs end to end.
#[derive(Debug)]
pub struct MockKmsKeyWrapper;

impl SecretVaultKmsKeyWrapper for MockKmsKeyWrapper {
    open spec fn unwrap_model(&self, wrapped: Seq<u8>) -> Option<Seq<u8>> {
        Some(wrapped)
    }

    open spec fn reliable(&self) -> bool {
        true
    }

    fn wrap_session_key(&self, session_key: &SecretValue) -> (r: SecretVaultResult<
        EncryptedSecretValue,
    >)
        ensures
            r matches Ok(w) && w@ == session_key@,
    {
        Ok(EncryptedSecretValue::new(copy_bytes(session_key.ref_sensitive_value())))
    }

    fn unwrap_session_key(&self, wrapped: &EncryptedSecretValue) -> (r: SecretVaultResult<
        SecretValue,
    >)
        ensures
            r matches Ok(v) && v@ == wrapped@,
    {
        Ok(SecretValue::new(copy_bytes(wrapped.value())))
    }
}

/// Envelope encryption over a key wrapper: the session key is kept only in
/// wrapped form and unwrapped per operation; payloads are sealed locally
/// with ChaCha20-Poly1305 under the secret's name as AAD.
pub struct SecretVaultKmsEnvelopeEncryption<P: SecretVaultKmsKeyWrapper> {
    provider: P,
    wrapped_session_secret: EncryptedSecretValue,
    nonce_data: SecretValue,
    session_key_view: Ghost<Seq<u8>>,
}

impl<P: SecretVaultKmsKeyWrapper> SecretVaultKmsEnvelopeEncryption<P> {
    /// The wrapped key unwraps to the session key, which has the length
    /// the algorithm demands; so does the nonce.
    #[verifier::type_invariant]
    spec fn wf(&self) -> bool {
        self.provider.unwrap_model(self.wrapped_session_secret@) == Some(self.session_key_view@)
            && self.session_key_view@.len() == CHACHA_KEY_LEN && self.nonce_data@.len()
            == CHACHA_NONCE_LEN
    }

    /// Draws a fresh session key, wraps it, and keeps only the wrapped
    /// form beside a fresh nonce.
    pub fn new(provider: P) -> (r: SecretVaultResult<Self>)
        ensures
            r matches Ok(e) ==> e.reliable() == provider.reliable(),
    {
        let secure_rand = ring::rand::SystemRandom::new();
        let session_key = match generate_session_secret(&secure_rand, CHACHA_KEY_LEN) {
            Ok(v) => v,
            Err(e) => {
                return Err(e);
            },
        };
        let nonce_data = match generate_nonce(&secure_rand) {
            Ok(v) => v,
            Err(e) => {
                return Err(e);
            },
        };
        let wrapped_session_secret = match provider.wrap_session_key(&session_key) {
            Ok(w) => w,
            Err(e) => {
                return Err(e);
            },
        };
        let ghost session_key_view = session_key@;
        Ok(
            Self {
                provider,
                wrapped_session_secret,
                nonce_data,
                session_key_view: Ghost(session_key_view),
            },
        )
    }
}

impl<P: SecretVaultKmsKeyWrapper> SecretVaultEncryption for SecretVaultKmsEnvelopeEncryption<P> {
    closed spec fn decrypt_model(&self, key: SecretVaultKeyView, ciphertext: Seq<u8>) -> Option<
        Seq<u8>,
    > {
        chacha_open(self.session_key_view@, self.nonce_data@, key.secret_name, ciphertext)
    }

    closed spec fn reliable(&self) -> bool {
        self.provider.reliable()
    }

    fn encrypt_value(
        &self,
        secret_vault_key: &SecretVaultKey,
        secret_value: &SecretValue,
    ) -> (r: SecretVaultResult<EncryptedSecretValue>)
        ensures
            self.reliable() && secret_value@.len() <= MAX_AEAD_PLAINTEXT_LEN ==> r is Ok,
            r matches Ok(ct) ==> ct@.len() == secret_value@.len()
                + crate::ring_encryption_support::CHACHA_TAG_LEN,
    {
        proof {
            use_type_invariant(self);
        }
        let session_key = match self.provider.unwrap_session_key(&self.wrapped_session_secret) {
            Ok(v) => v,
            Err(e) => {
                return Err(e);
            },
        };
        encrypt_with_sealing_key(
            &session_key,
            &self.nonce_data,
            &secret_vault_key.secret_name,
            secret_value,
        )
    }

    fn decrypt_value(
        &self,
        secret_vault_key: &SecretVaultKey,
        encrypted_secret_value: &EncryptedSecretValue,
    ) -> (r: SecretVaultResult<SecretValue>) {
        proof {
            use_type_invariant(self);
        }
        let session_key = match self.provider.unwrap_session_key(&self.wrapped_session_secret) {
            Ok(v) => v,
            Err(e) => {
                return Err(e);
            },
        };
        decrypt_with_opening_key(
            &session_key,
            &self.nonce_data,
            &secret_vault_key.secret_name,
            encrypted_secret_value,
        )
    }
}

} // verus!
