use secret_vault::kms_status_error;
use secret_vault::SecretValue;
use secret_vault::SecretValueDecodeError;
use secret_vault::SecretVaultError;

fn sv(text: &str) -> SecretValue {
    SecretValue::from_str_slice(text)
}

#[test]
fn secret_is_not_leaking_in_fmt() {
    for text in ["", "test", "s3cr3t-value", "0123456789"] {
        let value = sv(text);
        assert_eq!(value.sensitive_display_str(), "***");
    }
}

#[test]
fn secret_follows_partial_eq() {
    for text in ["", "a", "mock-secret"] {
        let a = SecretValue::new(text.as_bytes().to_vec());
        let b = SecretValue::new(text.as_bytes().to_vec());
        assert!(a == b);
    }
    assert!(sv("one") != sv("two"));
}

#[test]
fn reads_back_as_bytes_and_str() {
    let value = SecretValue::new(vec![0x34, 0x32]);
    assert_eq!(value.as_sensitive_bytes(), &[0x34, 0x32]);
    assert_eq!(value.as_sensitive_str(), "42");
    assert_eq!(value.ref_sensitive_value(), &vec![0x34, 0x32]);
}

#[test]
fn invalid_utf8_is_reported() {
    let value = SecretValue::new(vec![0xff, 0xfe]);
    assert!(value.sensitive_value_to_str().is_err());
}

#[test]
fn secure_clear_empties_the_buffer() {
    let mut value = sv("wipe me");
    value.secure_clear();
    assert_eq!(value.as_sensitive_bytes().len(), 0);
}

#[test]
fn conversions_wipe_their_mutable_sources() {
    let mut raw = vec![1u8, 2, 3];
    let value = SecretValue::from_mut_vec(&mut raw);
    assert_eq!(value.as_sensitive_bytes(), &[1, 2, 3]);
    assert!(raw.is_empty());

    let mut text = String::from("hush");
    let value = SecretValue::from_mut_string(&mut text);
    assert_eq!(value.as_sensitive_str(), "hush");
    assert!(text.is_empty());
}

#[test]
fn from_string_takes_the_text() {
    let value = SecretValue::from_string(String::from("owned"));
    assert_eq!(value.as_sensitive_str(), "owned");
}

#[test]
fn clone_copies_the_bytes() {
    let value = sv("copy me");
    let copy = value.clone();
    assert!(copy == value);
    assert_eq!(copy.as_sensitive_bytes(), value.as_sensitive_bytes());
}

#[test]
fn kms_status_classification() {
    match kms_status_error(5, "gone".to_string()) {
        SecretVaultError::DataNotFoundError(d) => {
            assert_eq!(d.public.code, "NotFound");
            assert_eq!(d.data_detail_message, "gone");
        },
        other => panic!("expected data-not-found, got {:?}", other),
    }
    for (code, text) in [
        (1u32, "Cancelled"),
        (8, "ResourceExhausted"),
        (10, "Aborted"),
        (14, "Unavailable"),
        (2, "Unknown"),
    ] {
        match kms_status_error(code, "kms failure".to_string()) {
            SecretVaultError::NetworkError(n) => {
                assert_eq!(n.public.code, text);
                assert_eq!(n.message, "kms failure");
            },
            other => panic!("expected a network error, got {:?}", other),
        }
    }
}

#[test]
fn decode_error_variants_are_distinct() {
    assert_ne!(
        SecretValueDecodeError::InvalidHex,
        SecretValueDecodeError::InvalidBase64
    );
}

#[test]
fn from_bytes_mut_copies_the_buffer() {
    let buffer = bytes::BytesMut::from("test-bytes");
    let value = SecretValue::from_bytes_mut(buffer);
    assert_eq!(value.as_sensitive_str(), "test-bytes");
}
