//! Base64 encoding and decoding of secret bytes.
//!
//! The encoding is the standard alphabet with `=` padding; decoding requires
//! canonical padding and rejects set trailing bits, so it accepts exactly the
//! renderings that encoding produces.

use vstd::prelude::*;
use vstd::utf8::encode_utf8;

use crate::hex_support::decoded_after_prefix;
use crate::value::ascii_bytes_to_string;
use crate::value::ascii_chars_of;
use crate::value::wipe_string;
use crate::value::SecretValue;
use crate::value::SecretValueDecodeError;
use crate::zeroizing::zeroizing_string_view;
use crate::zeroizing::ZeroizingString;

verus! {

/// The standard-alphabet character for a sextet value below sixty-four.
pub open spec fn b64_char(n: u8) -> u8
    recommends
        n < 64,
{
    if n < 26 {
        (0x41 + n) as u8
    } else if n < 52 {
        (0x61 + (n - 26)) as u8
    } else if n < 62 {
        (0x30 + (n - 52)) as u8
    } else if n == 62 {
        0x2b as u8
    } else {
        0x2f as u8
    }
}

/// Whether a byte is a character of the standard base64 alphabet.
pub open spec fn is_b64_char(c: u8) -> bool {
    (0x41 <= c <= 0x5a) || (0x61 <= c <= 0x7a) || (0x30 <= c <= 0x39) || c == 0x2b || c == 0x2f
}

/// The sextet value of a standard-alphabet character.
pub open spec fn b64_val(c: u8) -> u8
    recommends
        is_b64_char(c),
{
    if 0x41 <= c <= 0x5a {
        (c - 0x41) as u8
    } else if 0x61 <= c <= 0x7a {
        (c - 0x61 + 26) as u8
    } else if 0x30 <= c <= 0x39 {
        (c - 0x30 + 52) as u8
    } else if c == 0x2b {
        62 as u8
    } else {
        63 as u8
    }
}

/// The base64 rendering of a byte sequence, with `=` padding.
pub open spec fn b64_encode_bytes(b: Seq<u8>) -> Seq<u8>
    decreases b.len(),
{
    if b.len() == 0 {
        Seq::empty()
    } else if b.len() == 1 {
        seq![b64_char(b[0] / 4), b64_char(((b[0] % 4) * 16) as u8), 0x3d, 0x3d]
    } else if b.len() == 2 {
        seq![
            b64_char(b[0] / 4),
            b64_char(((b[0] % 4) * 16 + b[1] / 16) as u8),
            b64_char(((b[1] % 16) * 4) as u8),
            0x3d,
        ]
    } else {
        seq![
            b64_char(b[0] / 4),
            b64_char(((b[0] % 4) * 16 + b[1] / 16) as u8),
            b64_char(((b[1] % 16) * 4 + b[2] / 64) as u8),
            b64_char(b[2] % 64),
        ] + b64_encode_bytes(b.skip(3))
    }
}

/// The bytes a base64 text spells, or nothing where the text is not valid
/// canonical base64.
pub open spec fn b64_decode_bytes(s: Seq<u8>) -> Option<Seq<u8>>
    decreases s.len(),
{
    if s.len() % 4 != 0 {
        None
    } else if s.len() == 0 {
        Some(Seq::empty())
    } else if s.len() == 4 {
        b64_decode_last_group(s)
    } else if is_b64_char(s[0]) && is_b64_char(s[1]) && is_b64_char(s[2]) && is_b64_char(s[3]) {
        match b64_decode_bytes(s.skip(4)) {
            Option::None => None,
            Option::Some(rest) => Some(b64_group_bytes(s[0], s[1], s[2], s[3]) + rest),
        }
    } else {
        None
    }
}

/// The three bytes spelled by a full group of four alphabet characters.
pub open spec fn b64_group_bytes(c0: u8, c1: u8, c2: u8, c3: u8) -> Seq<u8> {
    seq![
        (b64_val(c0) * 4 + b64_val(c1) / 16) as u8,
        ((b64_val(c1) % 16) * 16 + b64_val(c2) / 4) as u8,
        ((b64_val(c2) % 4) * 64 + b64_val(c3)) as u8,
    ]
}

/// The bytes spelled by the final, possibly padded, group of four.
pub open spec fn b64_decode_last_group(s: Seq<u8>) -> Option<Seq<u8>>
    recommends
        s.len() == 4,
{
    if !is_b64_char(s[0]) || !is_b64_char(s[1]) {
        None
    } else if s[2] == 0x3d && s[3] == 0x3d {
        if b64_val(s[1]) % 16 == 0 {
            Some(seq![(b64_val(s[0]) * 4 + b64_val(s[1]) / 16) as u8])
        } else {
            None
        }
    } else if s[3] == 0x3d {
        if is_b64_char(s[2]) && b64_val(s[2]) % 4 == 0 {
            Some(
                seq![
                    (b64_val(s[0]) * 4 + b64_val(s[1]) / 16) as u8,
                    ((b64_val(s[1]) % 16) * 16 + b64_val(s[2]) / 4) as u8,
                ],
            )
        } else {
            None
        }
    } else if is_b64_char(s[2]) && is_b64_char(s[3]) {
        Some(b64_group_bytes(s[0], s[1], s[2], s[3]))
    } else {
        None
    }
}

/// An alphabet character always reads back as the sextet it renders.
proof fn lemma_b64_char_val(n: u8)
    requires
        n < 64,
    ensures
        is_b64_char(b64_char(n)),
        b64_val(b64_char(n)) == n,
        b64_char(n) != 0x3d,
{
}

/// A base64 rendering has a multiple of four bytes: four for each three
/// bytes rendered, rounded up.
pub proof fn lemma_b64_encode_len(b: Seq<u8>)
    ensures
        b64_encode_bytes(b).len() == 4 * ((b.len() + 2) / 3),
        b64_encode_bytes(b).len() % 4 == 0,
        b.len() > 0 ==> b64_encode_bytes(b).len() >= 4,
        b.len() > 3 ==> b64_encode_bytes(b).len() > 4,
    decreases b.len(),
{
    if b.len() > 3 {
        lemma_b64_encode_len(b.skip(3));
    } else if b.len() == 3 {
        lemma_b64_encode_len(b.skip(3));
        assert(b.skip(3).len() == 0);
    }
}

/// Decoding a base64 rendering gives back exactly the bytes rendered.
pub proof fn lemma_b64_round_trip(b: Seq<u8>)
    ensures
        b64_decode_bytes(b64_encode_bytes(b)) == Some(b),
    decreases b.len(),
{
    lemma_b64_encode_len(b);
    let e = b64_encode_bytes(b);
    if b.len() == 0 {
        assert(b64_decode_bytes(e) =~= Some(Seq::<u8>::empty()));
        assert(b =~= Seq::<u8>::empty());
    } else if b.len() == 1 {
        let b0 = b[0];
        lemma_b64_char_val(b0 / 4);
        lemma_b64_char_val(((b0 % 4) * 16) as u8);
        assert((b0 % 4) * 16 < 64 && ((b0 % 4) * 16) % 16 == 0 && ((b0 % 4) * 16) / 16 == b0 % 4)
            by (nonlinear_arith)
            requires
                b0 < 256,
        ;
        assert(b64_decode_last_group(e) == Some(seq![((b0 / 4) * 4 + b0 % 4) as u8]));
        assert((b0 / 4) * 4 + b0 % 4 == b0);
        assert(seq![b0] =~= b);
    } else if b.len() == 2 {
        let b0 = b[0];
        let b1 = b[1];
        lemma_b64_char_val(b0 / 4);
        assert((b0 % 4) * 16 + b1 / 16 < 64 && (b1 % 16) * 4 < 64) by (nonlinear_arith)
            requires
                b0 < 256 && b1 < 256,
        ;
        let n1 = ((b0 % 4) * 16 + b1 / 16) as u8;
        let n2 = ((b1 % 16) * 4) as u8;
        lemma_b64_char_val(n1);
        lemma_b64_char_val(n2);
        assert(((b1 % 16) * 4) % 4 == 0 && ((b0 % 4) * 16 + b1 / 16) / 16 == b0 % 4 && ((b0 % 4)
            * 16 + b1 / 16) % 16 == b1 / 16 && ((b1 % 16) * 4) / 4 == b1 % 16)
            by (nonlinear_arith)
            requires
                b0 < 256 && b1 < 256,
        ;
        assert(n2 % 4 == 0 && n1 / 16 == b0 % 4 && n1 % 16 == b1 / 16 && n2 / 4 == b1 % 16);
        assert((b0 / 4) * 4 + b0 % 4 == b0);
        assert((b1 / 16) * 16 + b1 % 16 == b1);
        assert(b64_decode_last_group(e) == Some(seq![b0, b1]));
        assert(seq![b0, b1] =~= b);
    } else {
        let b0 = b[0];
        let b1 = b[1];
        let b2 = b[2];
        lemma_b64_char_val(b0 / 4);
        assert((b0 % 4) * 16 + b1 / 16 < 64 && (b1 % 16) * 4 + b2 / 64 < 64) by (nonlinear_arith)
            requires
                b0 < 256 && b1 < 256 && b2 < 256,
        ;
        let n1 = ((b0 % 4) * 16 + b1 / 16) as u8;
        let n2 = ((b1 % 16) * 4 + b2 / 64) as u8;
        lemma_b64_char_val(n1);
        lemma_b64_char_val(n2);
        lemma_b64_char_val(b2 % 64);
        lemma_b64_round_trip(b.skip(3));
        lemma_b64_encode_len(b.skip(3));
        assert(e.skip(4) =~= b64_encode_bytes(b.skip(3)));
        assert(((b0 % 4) * 16 + b1 / 16) / 16 == b0 % 4 && ((b0 % 4) * 16 + b1 / 16) % 16 == b1
            / 16 && ((b1 % 16) * 4 + b2 / 64) / 4 == b1 % 16 && ((b1 % 16) * 4 + b2 / 64) % 4 == b2
            / 64) by (nonlinear_arith)
            requires
                b0 < 256 && b1 < 256 && b2 < 256,
        ;
        assert(n1 / 16 == b0 % 4 && n1 % 16 == b1 / 16 && n2 / 4 == b1 % 16 && n2 % 4 == b2 / 64);
        assert((b0 / 4) * 4 + b0 % 4 == b0);
        assert((b1 / 16) * 16 + b1 % 16 == b1);
        assert((b2 / 64) * 64 + b2 % 64 == b2);
        assert(b64_group_bytes(e[0], e[1], e[2], e[3]) =~= seq![b0, b1, b2]);
        if b.len() == 3 {
            assert(e.len() == 4);
            assert(b64_decode_last_group(e) == Some(seq![b0, b1, b2]));
            assert(seq![b0, b1, b2] =~= b);
            assert(b.skip(3).len() == 0);
        } else {
            assert(e.len() > 4);
            assert(seq![b0, b1, b2] + b.skip(3) =~= b);
        }
    }
}

/// The alphabet character for one sextet.
fn b64_char_of(n: u8) -> (r: u8)
    requires
        n < 64,
    ensures
        r == b64_char(n),
{
    if n < 26 {
        0x41 + n
    } else if n < 52 {
        0x61 + (n - 26)
    } else if n < 62 {
        0x30 + (n - 52)
    } else if n == 62 {
        0x2b
    } else {
        0x2f
    }
}

/// The sextet value of one text byte, where it is an alphabet character.
fn b64_val_of(c: u8) -> (r: Option<u8>)
    ensures
        r matches Some(v) ==> is_b64_char(c) && v == b64_val(c),
        r is None ==> !is_b64_char(c),
{
    if 0x41 <= c && c <= 0x5a {
        Some(c - 0x41)
    } else if 0x61 <= c && c <= 0x7a {
        Some(c - 0x61 + 26)
    } else if 0x30 <= c && c <= 0x39 {
        Some(c - 0x30 + 52)
    } else if c == 0x2b {
        Some(62)
    } else if c == 0x2f {
        Some(63)
    } else {
        None
    }
}

/// Renders bytes as standard base64 with padding.
pub(crate) fn b64_encode_vec(v: &Vec<u8>) -> (r: Vec<u8>)
    ensures
        r@ == b64_encode_bytes(v@),
{
    let mut r: Vec<u8> = Vec::new();
    let mut i: usize = 0;
    proof {
        assert(v@.skip(0) =~= v@);
    }
    while v.len() - i >= 3
        invariant
            i <= v.len(),
            b64_encode_bytes(v@) =~= r@ + b64_encode_bytes(v@.skip(i as int)),
        decreases v.len() - i,
    {
        let b0 = v[i];
        let b1 = v[i + 1];
        let b2 = v[i + 2];
        proof {
            assert((b0 % 4) * 16 + b1 / 16 < 64 && (b1 % 16) * 4 + b2 / 64 < 64)
                by (nonlinear_arith)
                requires
                    b0 < 256 && b1 < 256 && b2 < 256,
            ;
            assert(v@.skip(i as int)[0] == b0);
            assert(v@.skip(i as int)[1] == b1);
            assert(v@.skip(i as int)[2] == b2);
            assert(v@.skip(i as int).skip(3) =~= v@.skip(i as int + 3));
            assert(v@.skip(i as int).len() >= 3);
        }
        r.push(b64_char_of(b0 / 4));
        r.push(b64_char_of((b0 % 4) * 16 + b1 / 16));
        r.push(b64_char_of((b1 % 16) * 4 + b2 / 64));
        r.push(b64_char_of(b2 % 64));
        i = i + 3;
    }
    let remaining = v.len() - i;
    if remaining == 1 {
        let b0 = v[i];
        proof {
            assert(v@.skip(i as int)[0] == b0);
            assert(v@.skip(i as int).len() == 1);
            assert((b0 % 4) * 16 < 64) by (nonlinear_arith)
                requires
                    b0 < 256,
            ;
        }
        r.push(b64_char_of(b0 / 4));
        r.push(b64_char_of((b0 % 4) * 16));
        r.push(0x3d);
        r.push(0x3d);
    } else if remaining == 2 {
        let b0 = v[i];
        let b1 = v[i + 1];
        proof {
            assert(v@.skip(i as int)[0] == b0);
            assert(v@.skip(i as int)[1] == b1);
            assert(v@.skip(i as int).len() == 2);
            assert((b0 % 4) * 16 + b1 / 16 < 64 && (b1 % 16) * 4 < 64) by (nonlinear_arith)
                requires
                    b0 < 256 && b1 < 256,
            ;
        }
        r.push(b64_char_of(b0 / 4));
        r.push(b64_char_of((b0 % 4) * 16 + b1 / 16));
        r.push(b64_char_of((b1 % 16) * 4));
        r.push(0x3d);
    } else {
        proof {
            assert(v@.skip(i as int).len() == 0);
            assert(v@.skip(i as int) =~= Seq::<u8>::empty());
        }
    }
    proof {
        assert(r@ =~= b64_encode_bytes(v@));
    }
    r
}

/// Reads canonical standard base64 back into bytes.
pub(crate) fn b64_decode_slice(s: &[u8]) -> (r: Result<Vec<u8>, SecretValueDecodeError>)
    ensures
        r matches Ok(v) ==> b64_decode_bytes(s@) == Some(v@),
        r is Err ==> b64_decode_bytes(s@) is None,
{
    if s.len() % 4 != 0 {
        return Err(SecretValueDecodeError::InvalidBase64);
    }
    let mut out: Vec<u8> = Vec::new();
    let mut i: usize = 0;
    proof {
        assert(s@.skip(0) =~= s@);
    }
    while s.len() - i > 4
        invariant
            i <= s@.len(),
            i % 4 == 0,
            s@.len() % 4 == 0,
            i + 4 < s@.len() || i == s@.len() || i + 4 == s@.len(),
            b64_decode_bytes(s@) == decoded_after_prefix(
                out@,
                b64_decode_bytes(s@.skip(i as int)),
            ),
        decreases s@.len() - i,
    {
        let c0 = s[i];
        let c1 = s[i + 1];
        let c2 = s[i + 2];
        let c3 = s[i + 3];
        proof {
            assert(s@.skip(i as int)[0] == s@[i as int]);
            assert(s@.skip(i as int)[1] == s@[i as int + 1]);
            assert(s@.skip(i as int)[2] == s@[i as int + 2]);
            assert(s@.skip(i as int)[3] == s@[i as int + 3]);
            assert(s@.skip(i as int).skip(4) =~= s@.skip(i as int + 4));
            assert(s@.skip(i as int).len() > 4);
        }
        let v0 = match b64_val_of(c0) {
            Option::Some(v) => v,
            Option::None => {
                return Err(SecretValueDecodeError::InvalidBase64);
            },
        };
        let v1 = match b64_val_of(c1) {
            Option::Some(v) => v,
            Option::None => {
                return Err(SecretValueDecodeError::InvalidBase64);
            },
        };
        let v2 = match b64_val_of(c2) {
            Option::Some(v) => v,
            Option::None => {
                return Err(SecretValueDecodeError::InvalidBase64);
            },
        };
        let v3 = match b64_val_of(c3) {
            Option::Some(v) => v,
            Option::None => {
                return Err(SecretValueDecodeError::InvalidBase64);
            },
        };
        proof {
            assert(v0 * 4 + v1 / 16 < 256 && (v1 % 16) * 16 + v2 / 4 < 256 && (v2 % 4) * 64 + v3
                < 256) by (nonlinear_arith)
                requires
                    v0 < 64 && v1 < 64 && v2 < 64 && v3 < 64,
            ;
        }
        let ghost old_out = out@;
        out.push(v0 * 4 + v1 / 16);
        out.push((v1 % 16) * 16 + v2 / 4);
        out.push((v2 % 4) * 64 + v3);
        i = i + 4;
        proof {
            assert(out@ =~= old_out + b64_group_bytes(s@[i - 4], s@[i - 3], s@[i - 2], s@[i - 1]));
            if b64_decode_bytes(s@.skip(i as int)) is Some {
                let t = b64_decode_bytes(s@.skip(i as int)).unwrap();
                assert(old_out + (b64_group_bytes(s@[i - 4], s@[i - 3], s@[i - 2], s@[i - 1]) + t)
                    =~= out@ + t);
            }
        }
    }
    if i == s.len() {
        proof {
            assert(s@.skip(s@.len() as int) =~= Seq::<u8>::empty());
            assert(out@ + Seq::<u8>::empty() =~= out@);
        }
        return Ok(out);
    }
    let c0 = s[i];
    let c1 = s[i + 1];
    let c2 = s[i + 2];
    let c3 = s[i + 3];
    proof {
        assert(s@.skip(i as int)[0] == s@[i as int]);
        assert(s@.skip(i as int)[1] == s@[i as int + 1]);
        assert(s@.skip(i as int)[2] == s@[i as int + 2]);
        assert(s@.skip(i as int)[3] == s@[i as int + 3]);
        assert(s@.skip(i as int).len() == 4);
    }
    let v0 = match b64_val_of(c0) {
        Option::Some(v) => v,
        Option::None => {
            return Err(SecretValueDecodeError::InvalidBase64);
        },
    };
    let v1 = match b64_val_of(c1) {
        Option::Some(v) => v,
        Option::None => {
            return Err(SecretValueDecodeError::InvalidBase64);
        },
    };
    if c2 == 0x3d && c3 == 0x3d {
        if v1 % 16 != 0 {
            return Err(SecretValueDecodeError::InvalidBase64);
        }
        out.push(v0 * 4 + v1 / 16);
    } else if c3 == 0x3d {
        let v2 = match b64_val_of(c2) {
            Option::Some(v) => v,
            Option::None => {
                return Err(SecretValueDecodeError::InvalidBase64);
            },
        };
        if v2 % 4 != 0 {
            return Err(SecretValueDecodeError::InvalidBase64);
        }
        out.push(v0 * 4 + v1 / 16);
        out.push((v1 % 16) * 16 + v2 / 4);
    } else {
        let v2 = match b64_val_of(c2) {
            Option::Some(v) => v,
            Option::None => {
                return Err(SecretValueDecodeError::InvalidBase64);
            },
        };
        let v3 = match b64_val_of(c3) {
            Option::Some(v) => v,
            Option::None => {
                return Err(SecretValueDecodeError::InvalidBase64);
            },
        };
        proof {
            assert((v1 % 16) * 16 + v2 / 4 < 256 && (v2 % 4) * 64 + v3 < 256) by (nonlinear_arith)
                requires
                    v1 < 64 && v2 < 64 && v3 < 64,
            ;
        }
        out.push(v0 * 4 + v1 / 16);
        out.push((v1 % 16) * 16 + v2 / 4);
        out.push((v2 % 4) * 64 + v3);
    }
    proof {
        assert(b64_decode_bytes(s@.skip(i as int)) == b64_decode_last_group(s@.skip(i as int)));
        assert(b64_decode_bytes(s@) == Some(out@));
    }
    Ok(out)
}

impl SecretValue {
    /// The secret rendered as a base64 secret value.
    pub fn to_base64_str(&self) -> (r: Self)
        ensures
            r@ == b64_encode_bytes(self@),
    {
        SecretValue::new(b64_encode_vec(self.ref_sensitive_value()))
    }

    /// The secret rendered as base64 text in a wipe-on-drop carrier.
    pub fn as_sensitive_base64_str(&self) -> (r: ZeroizingString)
        ensures
            zeroizing_string_view(&r) == ascii_chars_of(b64_encode_bytes(self@)),
    {
        let encoded = b64_encode_vec(self.ref_sensitive_value());
        proof {
            lemma_b64_encode_ascii(self@);
        }
        ZeroizingString::new(ascii_bytes_to_string(encoded))
    }

    /// Reads a base64 text back into a secret, wiping the input text.
    pub fn from_base64_str(base64_string: String) -> (r: Result<Self, SecretValueDecodeError>)
        ensures
            r matches Ok(v) ==> b64_decode_bytes(encode_utf8(base64_string@)) == Some(v@),
            r is Err ==> b64_decode_bytes(encode_utf8(base64_string@)) is None,
    {
        let mut base64_string = base64_string;
        let decoded = b64_decode_slice(base64_string.as_str().as_bytes());
        wipe_string(&mut base64_string);
        match decoded {
            Ok(bytes) => Ok(SecretValue::new(bytes)),
            Err(e) => Err(e),
        }
    }
}

/// Every byte of a base64 rendering is printable ASCII.
proof fn lemma_b64_encode_ascii(b: Seq<u8>)
    ensures
        forall|i: int|
            0 <= i < b64_encode_bytes(b).len() ==> #[trigger] b64_encode_bytes(b)[i] < 0x80,
    decreases b.len(),
{
    if b.len() > 3 {
        lemma_b64_encode_ascii(b.skip(3));
        let e = b64_encode_bytes(b);
        assert forall|i: int| 0 <= i < e.len() implies e[i] < 0x80 by {
            if i >= 4 {
                assert(e[i] == b64_encode_bytes(b.skip(3))[i - 4]);
            }
        }
    } else if b.len() == 3 {
        lemma_b64_encode_ascii(b.skip(3));
        let e = b64_encode_bytes(b);
        assert forall|i: int| 0 <= i < e.len() implies e[i] < 0x80 by {
            if i >= 4 {
                assert(e[i] == b64_encode_bytes(b.skip(3))[i - 4]);
            }
        }
    }
}

} // verus!
