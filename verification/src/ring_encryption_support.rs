//! The AEAD primitive and the entropy source, taken from ring.
//!
//! The algorithm is ChaCha20-Poly1305 with a 32-byte key, a 12-byte nonce
//! and a 16-byte tag.  Sealing and opening are deterministic functions of
//! key, nonce, AAD and payload; their outcomes are named by `chacha_seal`
//! and `chacha_open`, and opening inverts sealing under the same context.

use vstd::prelude::*;

use crate::common_types::SecretName;
use crate::encryption::EncryptedSecretValue;
use crate::encryption::MAX_AEAD_PLAINTEXT_LEN;
use crate::errors::SecretVaultEncryptionError;
use crate::errors::SecretVaultResult;
use crate::value::SecretValue;

verus! {

/// The key length of ChaCha20-Poly1305, in bytes.
pub const CHACHA_KEY_LEN: usize = 32;

/// The nonce length of ChaCha20-Poly1305, in bytes.
pub const CHACHA_NONCE_LEN: usize = 12;

/// The authentication-tag length of ChaCha20-Poly1305, in bytes.
pub const CHACHA_TAG_LEN: usize = 16;

/// ring's cryptographically secure random source.
#[verifier::external_type_specification]
#[verifier::external_body]
pub struct ExSystemRandom(ring::rand::SystemRandom);

/// Relies on ring's `SystemRandom::new`: it builds the process-wide CSPRNG
/// handle.
pub assume_specification[ ring::rand::SystemRandom::new ]() -> ring::rand::SystemRandom;

/// Fills a buffer with random bytes.
///
/// Relies on ring's `SecureRandom::fill`: it overwrites the whole buffer
/// with random bytes.  The output is random, so only the unchanged length
/// is promised.
#[verifier::external_body]
pub(crate) fn fill_random(secure_rand: &ring::rand::SystemRandom, buf: &mut Vec<u8>) -> (r: Result<(), ()>)
    ensures
        final(buf)@.len() == old(buf)@.len(),
{
    match ring::rand::SecureRandom::fill(secure_rand, buf.as_mut_slice()) {
        Ok(()) => Ok(()),
        Err(_) => Err(()),
    }
}

/// What sealing yields: ciphertext with the tag appended, as a function of
/// key, nonce, AAD and plaintext.
pub uninterp spec fn chacha_seal(key: Seq<u8>, nonce: Seq<u8>, aad: Seq<char>, plaintext: Seq<u8>) -> Seq<u8>;

/// What opening yields: the plaintext, or nothing where the tag does not
/// authenticate under key, nonce and AAD.
pub uninterp spec fn chacha_open(
    key: Seq<u8>,
    nonce: Seq<u8>,
    aad: Seq<char>,
    ciphertext: Seq<u8>,
) -> Option<Seq<u8>>;

/// Seals a payload under key, nonce and AAD.
///
/// Relies on ring's aead module (`CHACHA20_POLY1305`,
/// `LessSafeKey::seal_in_place_append_tag`): with a 32-byte key, a 12-byte
/// nonce and a payload within the algorithm's limit the call succeeds; it
/// appends the 16-byte tag, sealing is a function of its four inputs, and
/// opening the sealed bytes under the same key, nonce and AAD yields the
/// payload again.
#[verifier::external_body]
fn aead_seal(key: &Vec<u8>, nonce: &Vec<u8>, aad: &str, plaintext: &Vec<u8>) -> (r: Result<
    Vec<u8>,
    (),
>)
    requires
        key@.len() == CHACHA_KEY_LEN,
        nonce@.len() == CHACHA_NONCE_LEN,
        plaintext@.len() <= MAX_AEAD_PLAINTEXT_LEN,
    ensures
        r is Ok,
        r matches Ok(ct) ==> ct@ == chacha_seal(key@, nonce@, aad@, plaintext@) && ct@.len()
            == plaintext@.len() + CHACHA_TAG_LEN && chacha_open(key@, nonce@, aad@, ct@) == Some(
            plaintext@,
        ),
{
    let unbound = ring::aead::UnboundKey::new(&ring::aead::CHACHA20_POLY1305, key.as_slice())
        .map_err(|_| ())?;
    let sealing_key = ring::aead::LessSafeKey::new(unbound);
    let n = ring::aead::Nonce::try_assume_unique_for_key(nonce.as_slice()).map_err(|_| ())?;
    let mut data = plaintext.clone();
    sealing_key.seal_in_place_append_tag(n, ring::aead::Aad::from(aad.as_bytes()), &mut data)
        .map_err(|_| ())?;
    Ok(data)
}

/// Opens a sealed payload under key, nonce and AAD.
///
/// Relies on ring's aead module (`LessSafeKey::open_in_place`): opening is
/// a function of key, nonce, AAD and ciphertext; it succeeds exactly when
/// the tag authenticates, and returns the ciphertext without the 16-byte
/// tag.
#[verifier::external_body]
fn aead_open(key: &Vec<u8>, nonce: &Vec<u8>, aad: &str, ciphertext: &Vec<u8>) -> (r: Result<
    Vec<u8>,
    (),
>)
    requires
        key@.len() == CHACHA_KEY_LEN,
        nonce@.len() == CHACHA_NONCE_LEN,
    ensures
        r matches Ok(pt) ==> chacha_open(key@, nonce@, aad@, ciphertext@) == Some(pt@),
        r is Err ==> chacha_open(key@, nonce@, aad@, ciphertext@) is None,
{
    let unbound = ring::aead::UnboundKey::new(&ring::aead::CHACHA20_POLY1305, key.as_slice())
        .map_err(|_| ())?;
    let opening_key = ring::aead::LessSafeKey::new(unbound);
    let n = ring::aead::Nonce::try_assume_unique_for_key(nonce.as_slice()).map_err(|_| ())?;
    let mut data = ciphertext.clone();
    let plaintext_len = opening_key.open_in_place(
        n,
        ring::aead::Aad::from(aad.as_bytes()),
        &mut data,
    ).map_err(|_| ())?.len();
    data.truncate(plaintext_len);
    Ok(data)
}

/// Draws a fresh session key of the given length from the entropy source.
pub fn generate_session_secret(
    secure_rand: &ring::rand::SystemRandom,
    key_len: usize,
) -> (r: SecretVaultResult<SecretValue>)
    ensures
        r matches Ok(v) ==> v@.len() == key_len,
        r matches Err(e) ==> e matches crate::errors::SecretVaultError::EncryptionError(d)
            && d.public.code@ == "ENCRYPTION"@,
{
    let mut rand_key_data: Vec<u8> = vec![0; key_len];
    match fill_random(secure_rand, &mut rand_key_data) {
        Ok(()) => Ok(SecretValue::new(rand_key_data)),
        Err(()) => Err(
            SecretVaultEncryptionError::create(
                "ENCRYPTION",
                "Unable to initialise random session key",
            ),
        ),
    }
}

/// Draws a fresh nonce from the entropy source.
pub fn generate_nonce(secure_rand: &ring::rand::SystemRandom) -> (r: SecretVaultResult<
    SecretValue,
>)
    ensures
        r matches Ok(v) ==> v@.len() == CHACHA_NONCE_LEN,
        r matches Err(e) ==> e matches crate::errors::SecretVaultError::EncryptionError(d)
            && d.public.code@ == "ENCRYPTION"@,
{
    let mut nonce_data: Vec<u8> = vec![0; CHACHA_NONCE_LEN];
    match fill_random(secure_rand, &mut nonce_data) {
        Ok(()) => Ok(SecretValue::new(nonce_data)),
        Err(()) => Err(
            SecretVaultEncryptionError::create("ENCRYPTION", "Unable to initialise random nonce"),
        ),
    }
}

/// Seals a secret under the session key, binding it to the secret's name.
pub fn encrypt_with_sealing_key(
    session_secret: &SecretValue,
    nonce_data: &SecretValue,
    secret_name: &SecretName,
    secret_value: &SecretValue,
) -> (r: SecretVaultResult<EncryptedSecretValue>)
    requires
        session_secret@.len() == CHACHA_KEY_LEN,
        nonce_data@.len() == CHACHA_NONCE_LEN,
    ensures
        (r is Ok) <==> secret_value@.len() <= MAX_AEAD_PLAINTEXT_LEN,
        r matches Ok(ct) ==> ct@ == chacha_seal(
            session_secret@,
            nonce_data@,
            secret_name@,
            secret_value@,
        ) && chacha_open(session_secret@, nonce_data@, secret_name@, ct@) == Some(secret_value@),
        r matches Ok(ct) ==> ct@.len() == secret_value@.len() + CHACHA_TAG_LEN,
        r matches Err(e) ==> e matches crate::errors::SecretVaultError::EncryptionError(d)
            && d.public.code@ == "ENCRYPT"@,
{
    if secret_value.ref_sensitive_value().len() > MAX_AEAD_PLAINTEXT_LEN {
        return Err(SecretVaultEncryptionError::create("ENCRYPT", "Unable to encrypt data"));
    }
    match aead_seal(
        session_secret.ref_sensitive_value(),
        nonce_data.ref_sensitive_value(),
        secret_name.value().as_str(),
        secret_value.ref_sensitive_value(),
    ) {
        Ok(ct) => Ok(EncryptedSecretValue::new(ct)),
        Err(()) => Err(SecretVaultEncryptionError::create("ENCRYPT", "Unable to encrypt data")),
    }
}

/// Opens a stored ciphertext under the session key and the secret's name.
pub fn decrypt_with_opening_key(
    session_secret: &SecretValue,
    nonce_data: &SecretValue,
    secret_name: &SecretName,
    encrypted_secret_value: &EncryptedSecretValue,
) -> (r: SecretVaultResult<SecretValue>)
    requires
        session_secret@.len() == CHACHA_KEY_LEN,
        nonce_data@.len() == CHACHA_NONCE_LEN,
    ensures
        (r is Ok) <==> chacha_open(
            session_secret@,
            nonce_data@,
            secret_name@,
            encrypted_secret_value@,
        ) is Some,
        r matches Ok(v) ==> chacha_open(
            session_secret@,
            nonce_data@,
            secret_name@,
            encrypted_secret_value@,
        ) == Some(v@),
        r matches Err(e) ==> e matches crate::errors::SecretVaultError::EncryptionError(d)
            && d.public.code@ == "DECRYPT"@,
{
    match aead_open(
        session_secret.ref_sensitive_value(),
        nonce_data.ref_sensitive_value(),
        secret_name.value().as_str(),
        encrypted_secret_value.value(),
    ) {
        Ok(pt) => Ok(SecretValue::new(pt)),
        Err(()) => Err(SecretVaultEncryptionError::create("DECRYPT", "Unable to decrypt data")),
    }
}

} // verus!
