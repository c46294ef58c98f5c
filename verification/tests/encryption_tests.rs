use secret_vault::MockKmsKeyWrapper;
use secret_vault::SecretName;
use secret_vault::SecretValue;
use secret_vault::SecretVaultEncryption;
use secret_vault::SecretVaultError;
use secret_vault::SecretVaultKey;
use secret_vault::SecretVaultKmsEnvelopeEncryption;
use secret_vault::SecretVaultNoEncryption;
use secret_vault::SecretVaultRingAeadEncryption;

fn key(name: &str) -> SecretVaultKey {
    SecretVaultKey::new(SecretName::new(name.to_string()))
}

fn encryption_test_for(mock_secret_value: SecretValue) {
    let mock_secret_vault_key = key("test");
    let encryption = SecretVaultRingAeadEncryption::new().unwrap();

    let encrypted_value = encryption
        .encrypt_value(&mock_secret_vault_key, &mock_secret_value)
        .unwrap();
    assert_ne!(
        encrypted_value.value(),
        mock_secret_value.ref_sensitive_value()
    );
    assert_eq!(
        encrypted_value.value().len(),
        mock_secret_value.ref_sensitive_value().len() + 16
    );

    let decrypted_value = encryption
        .decrypt_value(&mock_secret_vault_key, &encrypted_value)
        .unwrap();
    assert_eq!(
        decrypted_value.ref_sensitive_value(),
        mock_secret_value.ref_sensitive_value()
    );
}

#[test]
fn secret_encryption_test() {
    encryption_test_for(SecretValue::from_str_slice("mock-secret-value-042"));
}

#[test]
fn big_secret_encryption_test() {
    for sz in [5000, 32768, 65535] {
        encryption_test_for(SecretValue::new("42".repeat(sz).as_bytes().to_vec()))
    }
}

#[test]
fn empty_secret_encryption_test() {
    encryption_test_for(SecretValue::new(Vec::new()));
}

#[test]
fn wrong_secret_name_test_attest() {
    let mock_secret_vault_key1 = key("test1");
    let mock_secret_vault_key2 = key("test2");
    let mock_secret_value = SecretValue::new("42".repeat(1024).as_bytes().to_vec());

    let encryption = SecretVaultRingAeadEncryption::new().unwrap();
    let encrypted_value = encryption
        .encrypt_value(&mock_secret_vault_key1, &mock_secret_value)
        .unwrap();
    match encryption.decrypt_value(&mock_secret_vault_key2, &encrypted_value) {
        Err(SecretVaultError::EncryptionError(e)) => assert_eq!(e.public.code, "DECRYPT"),
        Err(other) => panic!("unexpected error kind: {:?}", other),
        Ok(_) => panic!("Unable to decrypt data"),
    }
}

#[test]
fn tampered_ciphertext_is_refused() {
    let vault_key = key("k1");
    let encryption = SecretVaultRingAeadEncryption::new().unwrap();
    let encrypted = encryption
        .encrypt_value(&vault_key, &SecretValue::from_str_slice("hello"))
        .unwrap();

    let mut tampered_bytes = encrypted.value().clone();
    tampered_bytes[0] ^= 0x01;
    let tampered = secret_vault::EncryptedSecretValue::new(tampered_bytes);

    match encryption.decrypt_value(&vault_key, &tampered) {
        Err(SecretVaultError::EncryptionError(e)) => assert_eq!(e.public.code, "DECRYPT"),
        Err(other) => panic!("unexpected error kind: {:?}", other),
        Ok(_) => panic!("tampered ciphertext must not decrypt"),
    }
}

#[test]
fn no_encryption_round_trip() {
    let vault_key = key("plain");
    let encryption = SecretVaultNoEncryption;
    let value = SecretValue::from_str_slice("cleartext");
    let encrypted = encryption.encrypt_value(&vault_key, &value).unwrap();
    assert_eq!(encrypted.value(), value.ref_sensitive_value());
    let decrypted = encryption.decrypt_value(&vault_key, &encrypted).unwrap();
    assert!(decrypted == value);
}

#[test]
fn kms_envelope_round_trip() {
    let vault_key = key("enveloped");
    let encryption = SecretVaultKmsEnvelopeEncryption::new(MockKmsKeyWrapper).unwrap();
    for text in ["", "short", "a much longer secret payload 0123456789"] {
        let value = SecretValue::from_str_slice(text);
        let encrypted = encryption.encrypt_value(&vault_key, &value).unwrap();
        if !text.is_empty() {
            assert_ne!(encrypted.value(), value.ref_sensitive_value());
        }
        let decrypted = encryption.decrypt_value(&vault_key, &encrypted).unwrap();
        assert!(decrypted == value);
    }
}

#[test]
fn kms_envelope_binds_the_key() {
    let encryption = SecretVaultKmsEnvelopeEncryption::new(MockKmsKeyWrapper).unwrap();
    let encrypted = encryption
        .encrypt_value(&key("k1"), &SecretValue::from_str_slice("hello"))
        .unwrap();
    assert!(encryption.decrypt_value(&key("k2"), &encrypted).is_err());
}
