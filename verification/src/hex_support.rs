//! Hex encoding and decoding of secret bytes.
//!
//! The encoding is the usual lowercase hex alphabet, two digits per byte.
//! Both directions are plain functions on bytes, stated by the spec
//! functions below; decoding inverts encoding exactly.

use vstd::prelude::*;
use vstd::utf8::encode_utf8;

use crate::value::ascii_bytes_to_string;
use crate::value::ascii_chars_of;
use crate::value::wipe_string;
use crate::value::SecretValue;
use crate::value::SecretValueDecodeError;
use crate::zeroizing::zeroizing_string_view;
use crate::zeroizing::ZeroizingString;

verus! {

/// The lowercase hex digit for a value below sixteen.
pub open spec fn hex_digit(n: u8) -> u8
    recommends
        n < 16,
{
    if n < 10 {
        (0x30 + n) as u8
    } else {
        (0x57 + n) as u8
    }
}

/// Whether a byte is an ASCII hex digit, upper or lower case.
pub open spec fn is_hex_digit_byte(c: u8) -> bool {
    (0x30 <= c <= 0x39) || (0x61 <= c <= 0x66) || (0x41 <= c <= 0x46)
}

/// The value of an ASCII hex digit.
pub open spec fn hex_val(c: u8) -> u8
    recommends
        is_hex_digit_byte(c),
{
    if 0x30 <= c <= 0x39 {
        (c - 0x30) as u8
    } else if 0x61 <= c <= 0x66 {
        (c - 0x57) as u8
    } else {
        (c - 0x37) as u8
    }
}

/// The hex rendering of a byte sequence: two lowercase digits per byte.
pub open spec fn hex_encode_bytes(b: Seq<u8>) -> Seq<u8>
    decreases b.len(),
{
    if b.len() == 0 {
        Seq::empty()
    } else {
        seq![hex_digit(b[0] / 16), hex_digit(b[0] % 16)] + hex_encode_bytes(b.drop_first())
    }
}

/// The bytes a hex text spells, or nothing where the text is not valid hex.
pub open spec fn hex_decode_bytes(s: Seq<u8>) -> Option<Seq<u8>>
    decreases s.len(),
{
    if s.len() % 2 != 0 {
        None
    } else if s.len() == 0 {
        Some(Seq::empty())
    } else if !is_hex_digit_byte(s[0]) || !is_hex_digit_byte(s[1]) {
        None
    } else {
        match hex_decode_bytes(s.skip(2)) {
            Option::None => None,
            Option::Some(rest) => Some(
                seq![((hex_val(s[0]) * 16 + hex_val(s[1])) as u8)] + rest,
            ),
        }
    }
}

/// Joins decoded leading bytes with the outcome on the remaining text.
pub open spec fn decoded_after_prefix(prefix: Seq<u8>, rest: Option<Seq<u8>>) -> Option<Seq<u8>> {
    match rest {
        Option::None => None,
        Option::Some(t) => Some(prefix + t),
    }
}

/// A hex rendering is twice as long as the bytes it renders.
pub proof fn lemma_hex_encode_len(b: Seq<u8>)
    ensures
        hex_encode_bytes(b).len() == 2 * b.len(),
    decreases b.len(),
{
    if b.len() > 0 {
        lemma_hex_encode_len(b.drop_first());
    }
}

/// Every byte of a hex rendering is an ASCII hex digit.
pub proof fn lemma_hex_encode_digits(b: Seq<u8>)
    ensures
        forall|i: int|
            0 <= i < hex_encode_bytes(b).len() ==> is_hex_digit_byte(
                #[trigger] hex_encode_bytes(b)[i],
            ),
    decreases b.len(),
{
    if b.len() > 0 {
        lemma_hex_encode_digits(b.drop_first());
        let e = hex_encode_bytes(b);
        assert forall|i: int| 0 <= i < e.len() implies is_hex_digit_byte(e[i]) by {
            if i >= 2 {
                assert(e[i] == hex_encode_bytes(b.drop_first())[i - 2]);
            } else {
                assert(b[0] / 16 < 16 && b[0] % 16 < 16);
            }
        }
    }
}

/// Decoding a hex rendering gives back exactly the bytes that were rendered.
pub proof fn lemma_hex_round_trip(b: Seq<u8>)
    ensures
        hex_decode_bytes(hex_encode_bytes(b)) == Some(b),
    decreases b.len(),
{
    lemma_hex_encode_len(b);
    if b.len() == 0 {
        assert(hex_encode_bytes(b) =~= Seq::<u8>::empty());
        assert(hex_decode_bytes(hex_encode_bytes(b)) =~= Some(Seq::<u8>::empty()));
        assert(b =~= Seq::<u8>::empty());
    } else {
        let e = hex_encode_bytes(b);
        let b0 = b[0];
        lemma_hex_round_trip(b.drop_first());
        lemma_hex_encode_len(b.drop_first());
        assert(e.skip(2) =~= hex_encode_bytes(b.drop_first()));
        assert(hex_val(e[0]) == b0 / 16 && hex_val(e[1]) == b0 % 16);
        assert(b0 / 16 * 16 + b0 % 16 == b0) by (nonlinear_arith);
        assert(seq![b0] + b.drop_first() =~= b);
    }
}

/// Renders bytes as lowercase hex, two digits per byte.
pub(crate) fn hex_encode_vec(v: &Vec<u8>) -> (r: Vec<u8>)
    ensures
        r@ == hex_encode_bytes(v@),
{
    let mut r: Vec<u8> = Vec::new();
    let mut i: usize = 0;
    proof {
        assert(v@.skip(0) =~= v@);
        lemma_hex_encode_len(v@);
    }
    while i < v.len()
        invariant
            i <= v.len(),
            hex_encode_bytes(v@) =~= r@ + hex_encode_bytes(v@.skip(i as int)),
            r@.len() == 2 * i,
        decreases v.len() - i,
    {
        let byte = v[i];
        let hi = byte / 16;
        let lo = byte % 16;
        r.push(if hi < 10 {
            0x30 + hi
        } else {
            0x57 + hi
        });
        r.push(if lo < 10 {
            0x30 + lo
        } else {
            0x57 + lo
        });
        proof {
            assert(v@.skip(i as int)[0] == byte);
            assert(v@.skip(i as int).drop_first() =~= v@.skip(i + 1));
        }
        i = i + 1;
    }
    proof {
        assert(v@.skip(v@.len() as int) =~= Seq::<u8>::empty());
        assert(r@ =~= hex_encode_bytes(v@));
    }
    r
}

/// Reads lowercase or uppercase hex back into bytes.
pub(crate) fn hex_decode_slice(s: &[u8]) -> (r: Result<Vec<u8>, SecretValueDecodeError>)
    ensures
        r matches Ok(v) ==> hex_decode_bytes(s@) == Some(v@),
        r is Err ==> hex_decode_bytes(s@) is None,
{
    if s.len() % 2 != 0 {
        return Err(SecretValueDecodeError::InvalidHex);
    }
    let mut out: Vec<u8> = Vec::new();
    let mut i: usize = 0;
    proof {
        assert(s@.skip(0) =~= s@);
    }
    while i < s.len()
        invariant
            i <= s@.len(),
            i % 2 == 0,
            s@.len() % 2 == 0,
            hex_decode_bytes(s@) == decoded_after_prefix(
                out@,
                hex_decode_bytes(s@.skip(i as int)),
            ),
        decreases s@.len() - i,
    {
        let c0 = s[i];
        let c1 = s[i + 1];
        let v0 = match hex_val_of(c0) {
            Option::Some(v) => v,
            Option::None => {
                return Err(SecretValueDecodeError::InvalidHex);
            },
        };
        let v1 = match hex_val_of(c1) {
            Option::Some(v) => v,
            Option::None => {
                return Err(SecretValueDecodeError::InvalidHex);
            },
        };
        proof {
            assert(s@.skip(i as int)[0] == s@[i as int]);
            assert(s@.skip(i as int)[1] == s@[i as int + 1]);
            assert(s@.skip(i as int).skip(2) =~= s@.skip(i as int + 2));
        }
        let ghost old_out = out@;
        out.push(v0 * 16 + v1);
        i = i + 2;
        proof {
            assert(out@ =~= old_out + seq![(hex_val(s@[i - 2]) * 16 + hex_val(
                s@[i - 1],
            )) as u8]);
            if hex_decode_bytes(s@.skip(i as int)) is Some {
                let t = hex_decode_bytes(s@.skip(i as int)).unwrap();
                assert(old_out + (seq![(hex_val(s@[i - 2]) * 16 + hex_val(s@[i - 1])) as u8] + t)
                    =~= out@ + t);
            }
        }
    }
    proof {
        assert(s@.skip(s@.len() as int) =~= Seq::<u8>::empty());
        assert(out@ + Seq::<u8>::empty() =~= out@);
        assert(hex_decode_bytes(s@) == Some(out@));
    }
    Ok(out)
}

/// The value of one hex digit byte, where it is one.
fn hex_val_of(c: u8) -> (r: Option<u8>)
    ensures
        r matches Some(v) ==> is_hex_digit_byte(c) && v == hex_val(c),
        r is None ==> !is_hex_digit_byte(c),
{
    if 0x30 <= c && c <= 0x39 {
        Some(c - 0x30)
    } else if 0x61 <= c && c <= 0x66 {
        Some(c - 0x57)
    } else if 0x41 <= c && c <= 0x46 {
        Some(c - 0x37)
    } else {
        None
    }
}

impl SecretValue {
    /// The secret rendered as a hex secret value.
    pub fn to_hex_str(&self) -> (r: Self)
        ensures
            r@ == hex_encode_bytes(self@),
    {
        SecretValue::new(hex_encode_vec(self.ref_sensitive_value()))
    }

    /// The secret rendered as hex text in a wipe-on-drop carrier.
    pub fn as_sensitive_hex_str(&self) -> (r: ZeroizingString)
        ensures
            zeroizing_string_view(&r) == ascii_chars_of(hex_encode_bytes(self@)),
    {
        let encoded = hex_encode_vec(self.ref_sensitive_value());
        proof {
            lemma_hex_encode_digits(self@);
        }
        ZeroizingString::new(ascii_bytes_to_string(encoded))
    }

    /// Reads a hex text back into a secret, wiping the input text.
    pub fn from_hex_str(hex_string: String) -> (r: Result<Self, SecretValueDecodeError>)
        ensures
            r matches Ok(v) ==> hex_decode_bytes(encode_utf8(hex_string@)) == Some(v@),
            r is Err ==> hex_decode_bytes(encode_utf8(hex_string@)) is None,
    {
        let mut hex_string = hex_string;
        let decoded = hex_decode_slice(hex_string.as_str().as_bytes());
        wipe_string(&mut hex_string);
        match decoded {
            Ok(bytes) => Ok(SecretValue::new(bytes)),
            Err(e) => Err(e),
        }
    }
}

} // verus!
