use base64::Engine;
use secret_vault::SecretValue;

fn sv(bytes: &[u8]) -> SecretValue {
    SecretValue::new(bytes.to_vec())
}

#[test]
fn test_hex_encode() {
    for bytes in [b"".as_slice(), b"a", b"hello world", &[0u8, 0xff, 0x10, 0x7f]] {
        let value = sv(bytes);
        let ours = value.as_sensitive_hex_str();
        assert_eq!(ours.as_str(), hex::encode(bytes));
        let hex_value = value.to_hex_str();
        assert_eq!(hex_value.as_sensitive_bytes(), hex::encode(bytes).as_bytes());
    }
}

#[test]
fn test_hex_decode() {
    for text in ["", "00", "deadbeef", "DEADBEEF", "0aFf"] {
        let ours = SecretValue::from_hex_str(text.to_string()).unwrap();
        let theirs = hex::decode(text).unwrap();
        assert_eq!(ours.as_sensitive_bytes(), theirs.as_slice());
    }
}

#[test]
fn hex_round_trip() {
    for bytes in [b"".as_slice(), b"42", b"\x00\x01\x02\xfd\xfe\xff"] {
        let value = sv(bytes);
        let encoded = value.as_sensitive_hex_str();
        let back = SecretValue::from_hex_str(encoded.as_str().to_string()).unwrap();
        assert_eq!(back.as_sensitive_bytes(), bytes);
    }
}

#[test]
fn hex_rejects_bad_input() {
    assert!(SecretValue::from_hex_str("abc".to_string()).is_err());
    assert!(SecretValue::from_hex_str("zz".to_string()).is_err());
    assert!(hex::decode("abc").is_err());
    assert!(hex::decode("zz").is_err());
}

#[test]
fn test_base64_encode() {
    for bytes in [
        b"".as_slice(),
        b"f",
        b"fo",
        b"foo",
        b"foob",
        b"fooba",
        b"foobar",
        &[0u8, 0xff, 0x10, 0x7f, 0x80],
    ] {
        let value = sv(bytes);
        let ours = value.as_sensitive_base64_str();
        let theirs = base64::prelude::BASE64_STANDARD.encode(bytes);
        assert_eq!(ours.as_str(), theirs);
        let b64_value = value.to_base64_str();
        assert_eq!(b64_value.as_sensitive_bytes(), theirs.as_bytes());
    }
}

#[test]
fn test_base64_decode() {
    for text in ["", "Zg==", "Zm8=", "Zm9v", "Zm9vYg==", "Zm9vYmE=", "Zm9vYmFy", "+/+/"] {
        let ours = SecretValue::from_base64_str(text.to_string()).unwrap();
        let theirs = base64::prelude::BASE64_STANDARD.decode(text).unwrap();
        assert_eq!(ours.as_sensitive_bytes(), theirs.as_slice());
    }
}

#[test]
fn base64_round_trip() {
    for bytes in [b"".as_slice(), b"x", b"xy", b"xyz", b"\x00\xff\x80\x7f"] {
        let value = sv(bytes);
        let encoded = value.as_sensitive_base64_str();
        let back = SecretValue::from_base64_str(encoded.as_str().to_string()).unwrap();
        assert_eq!(back.as_sensitive_bytes(), bytes);
    }
}

#[test]
fn base64_rejects_bad_input() {
    // Wrong length, non-alphabet bytes, and non-canonical trailing bits
    // are all refused, as the standard engine refuses them.
    for text in ["Zg=", "Z===", "Zg=a", "()==", "AR=="] {
        assert!(SecretValue::from_base64_str(text.to_string()).is_err());
        assert!(base64::prelude::BASE64_STANDARD.decode(text).is_err());
    }
}
