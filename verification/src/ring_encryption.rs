//! The in-memory AEAD strategy.
//!
//! At construction a random data-encryption key and a per-vault nonce are
//! drawn; both live only as long as the strategy and are wiped on drop.
//! Each ciphertext is bound to the secret's name through the AAD, so a
//! value filed under one key never decrypts under another.

use vstd::prelude::*;

use crate::common_types::SecretVaultKey;
use crate::common_types::SecretVaultKeyView;
use crate::encryption::EncryptedSecretValue;
use crate::encryption::SecretVaultEncryption;
use crate::errors::SecretVaultError;
use crate::errors::SecretVaultResult;
use crate::ring_encryption_support::chacha_open;
use crate::ring_encryption_support::decrypt_with_opening_key;
use crate::ring_encryption_support::encrypt_with_sealing_key;
use crate::ring_encryption_support::generate_nonce;
use crate::ring_encryption_support::generate_session_secret;
use crate::ring_encryption_support::CHACHA_KEY_LEN;
use crate::ring_encryption_support::CHACHA_NONCE_LEN;
use crate::encryption::MAX_AEAD_PLAINTEXT_LEN;
use crate::value::SecretValue;

verus! {

/// AEAD encryption with an ephemeral per-vault data-encryption key.
pub struct SecretVaultRingAeadEncryption {
    vault_secret: SecretValue,
    nonce_data: SecretValue,
}

impl SecretVaultRingAeadEncryption {
    /// The key and nonce have the lengths the algorithm demands.
    #[verifier::type_invariant]
    spec fn wf(&self) -> bool {
        self.vault_secret@.len() == CHACHA_KEY_LEN && self.nonce_data@.len() == CHACHA_NONCE_LEN
    }

    /// Draws a fresh data-encryption key and nonce.
    pub fn new() -> (r: SecretVaultResult<Self>)
        ensures
            r matches Err(e) ==> e matches SecretVaultError::EncryptionError(d)
                && d.public.code@ == "ENCRYPTION"@,
    {
        let secure_rand = ring::rand::SystemRandom::new();
        let vault_secret = match generate_session_secret(&secure_rand, CHACHA_KEY_LEN) {
            Ok(v) => v,
            Err(e) => {
                return Err(e);
            },
        };
        let nonce_data = match generate_nonce(&secure_rand) {
            Ok(v) => v,
            Err(e) => {
                return Err(e);
            },
        };
        Ok(Self { vault_secret, nonce_data })
    }
}

impl SecretVaultEncryption for SecretVaultRingAeadEncryption {
    closed spec fn decrypt_model(&self, key: SecretVaultKeyView, ciphertext: Seq<u8>) -> Option<
        Seq<u8>,
    > {
        chacha_open(self.vault_secret@, self.nonce_data@, key.secret_name, ciphertext)
    }

    open spec fn reliable(&self) -> bool {
        true
    }

    fn encrypt_value(
        &self,
        secret_vault_key: &SecretVaultKey,
        secret_value: &SecretValue,
    ) -> (r: SecretVaultResult<EncryptedSecretValue>)
        ensures
            (r is Ok) <==> secret_value@.len() <= MAX_AEAD_PLAINTEXT_LEN,
            r matches Ok(ct) ==> ct@.len() == secret_value@.len()
                + crate::ring_encryption_support::CHACHA_TAG_LEN,
            r matches Err(e) ==> e matches SecretVaultError::EncryptionError(d)
                && d.public.code@ == "ENCRYPT"@,
    {
        proof {
            use_type_invariant(self);
        }
        encrypt_with_sealing_key(
            &self.vault_secret,
            &self.nonce_data,
            &secret_vault_key.secret_name,
            secret_value,
        )
    }

    fn decrypt_value(
        &self,
        secret_vault_key: &SecretVaultKey,
        encrypted_secret_value: &EncryptedSecretValue,
    ) -> (r: SecretVaultResult<SecretValue>)
        ensures
            r matches Err(e) ==> e matches SecretVaultError::EncryptionError(d)
                && d.public.code@ == "DECRYPT"@,
    {
        proof {
            use_type_invariant(self);
        }
        decrypt_with_opening_key(
            &self.vault_secret,
            &self.nonce_data,
            &secret_vault_key.secret_name,
            encrypted_secret_value,
        )
    }
}

} // verus!
