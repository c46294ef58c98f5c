//! The `SecretValue` container: an owned byte buffer for secret material.
//!
//! The buffer is wiped when the value is dropped or explicitly cleared, and
//! every constructor that takes a mutable source wipes that source after the
//! copy.  Display-like rendering always yields the literal `"***"`.

use vstd::prelude::*;
use vstd::string::StrSliceExecFns;
use vstd::string::StringSliceAdditionalSpecFns;
use vstd::utf8::valid_utf8;

verus! {

/// Wipes a byte vector in place and empties it.
///
/// Relies on zeroize's `Zeroize for Vec<u8>`: it zeroizes the spare capacity
/// and every element, then clears the vector.
#[verifier::external_body]
pub(crate) fn wipe_vec(v: &mut Vec<u8>)
    ensures
        final(v)@.len() == 0,
{
    zeroize::Zeroize::zeroize(v);
}

/// Wipes a string's buffer in place and empties it.
///
/// Relies on zeroize's `Zeroize for String`: it zeroizes the backing vector
/// and clears the string.
#[verifier::external_body]
pub(crate) fn wipe_string(s: &mut String)
    ensures
        final(s)@.len() == 0,
{
    zeroize::Zeroize::zeroize(s);
}

/// An owned byte buffer holding one secret.
pub struct SecretValue(Vec<u8>);

impl View for SecretValue {
    type V = Seq<u8>;

    closed spec fn view(&self) -> Seq<u8> {
        self.0@
    }
}

/// The core::str::Utf8Error returned when secret bytes are not valid UTF-8.
#[verifier::external_type_specification]
#[verifier::external_body]
pub struct ExUtf8Error(core::str::Utf8Error);

/// Checks a byte slice for UTF-8 validity.
///
/// Relies on `core::str::from_utf8`: it returns `Ok` exactly when the bytes
/// are valid UTF-8, and the returned slice borrows those same bytes.
#[verifier::external_body]
fn bytes_to_str(v: &[u8]) -> (r: Result<&str, core::str::Utf8Error>)
    ensures
        r matches Ok(s) ==> s.spec_bytes() == v@ && valid_utf8(v@),
        r is Err ==> !valid_utf8(v@),
{
    core::str::from_utf8(v)
}

impl SecretValue {
    /// Takes ownership of raw secret bytes.
    pub fn new(src: Vec<u8>) -> (r: Self)
        ensures
            r@ == src@,
    {
        Self(src)
    }

    /// Borrows the secret bytes as a vector.
    pub fn ref_sensitive_value(&self) -> (r: &Vec<u8>)
        ensures
            r@ == self@,
    {
        &self.0
    }

    /// Borrows the secret bytes as a slice.
    pub fn as_sensitive_bytes(&self) -> (r: &[u8])
        ensures
            r@ == self@,
    {
        self.0.as_slice()
    }

    /// Borrows the secret as UTF-8 text, or reports the encoding fault.
    pub fn sensitive_value_to_str(&self) -> (r: Result<&str, core::str::Utf8Error>)
        ensures
            r matches Ok(s) ==> s.spec_bytes() == self@ && valid_utf8(self@),
            r is Err ==> !valid_utf8(self@),
    {
        bytes_to_str(self.0.as_slice())
    }

    /// Borrows the secret as UTF-8 text; the bytes must be valid UTF-8.
    pub fn as_sensitive_str(&self) -> (r: &str)
        requires
            valid_utf8(self@),
        ensures
            r.spec_bytes() == self@,
    {
        match self.sensitive_value_to_str() {
            Ok(s) => s,
            Err(_) => {
                proof {
                    assert(false);
                }
                ""
            },
        }
    }

    /// Overwrites the secret bytes with zeros and empties the buffer.
    pub fn secure_clear(&mut self)
        ensures
            final(self)@.len() == 0,
    {
        wipe_vec(&mut self.0);
    }

    /// What `SecretValue` renders as anywhere it is printed.
    pub fn sensitive_display_str(&self) -> (r: &'static str)
        ensures
            r@ == "***"@,
    {
        "***"
    }

    /// Builds a secret from an owned string, wiping the string's buffer.
    pub fn from_string(s: String) -> (r: Self)
        ensures
            r@ == vstd::utf8::encode_utf8(s@),
    {
        let mut s = s;
        let bytes = s.as_str().as_bytes_vec();
        wipe_string(&mut s);
        Self(bytes)
    }

    /// Builds a secret by copying a borrowed string slice.
    pub fn from_str_slice(s: &str) -> (r: Self)
        ensures
            r@ == s.spec_bytes(),
    {
        Self(s.as_bytes_vec())
    }

    /// Builds a secret from a mutable byte buffer, wiping the source.
    pub fn from_mut_vec(v: &mut Vec<u8>) -> (r: Self)
        ensures
            r@ == old(v)@,
            final(v)@.len() == 0,
    {
        let copy = copy_bytes(v);
        wipe_vec(v);
        Self(copy)
    }

    /// Builds a secret from a mutable string, wiping the source.
    pub fn from_mut_string(s: &mut String) -> (r: Self)
        ensures
            r@ == vstd::utf8::encode_utf8(old(s)@),
            final(s)@.len() == 0,
    {
        let bytes = s.as_str().as_bytes_vec();
        wipe_string(s);
        Self(bytes)
    }
}

/// bytes' mutable byte buffer.
#[verifier::external_type_specification]
#[verifier::external_body]
pub struct ExBytesMut(bytes::BytesMut);

/// The bytes a `BytesMut` buffer holds.
pub uninterp spec fn bytes_mut_view(b: &bytes::BytesMut) -> Seq<u8>;

impl SecretValue {
    /// Builds a secret from a mutable wire buffer, wiping the source
    /// before it is dropped.
    ///
    /// Relies on bytes' `BytesMut`: `as_ref` hands out exactly the held
    /// bytes, and `truncate(0)` empties the buffer after the zeroize
    /// overwrite.
    #[verifier::external_body]
    pub fn from_bytes_mut(bytes: bytes::BytesMut) -> (r: Self)
        ensures
            r@ == bytes_mut_view(&bytes),
    {
        let mut bytes = bytes;
        let result = SecretValue::new(bytes.as_ref().to_vec());
        zeroize::Zeroize::zeroize(bytes.as_mut());
        bytes.truncate(0);
        result
    }
}

/// The fault reported when text cannot be decoded back into a secret.
#[derive(Clone, Copy, Debug, PartialEq, Eq, Structural)]
pub enum SecretValueDecodeError {
    InvalidHex,
    InvalidBase64,
}

/// The characters that a sequence of ASCII bytes spells.
pub open spec fn ascii_chars_of(b: Seq<u8>) -> Seq<char> {
    Seq::new(b.len(), |i: int| b[i] as char)
}

/// Turns ASCII bytes into an owned string.
///
/// Relies on `String::from_utf8`: ASCII bytes are valid UTF-8 and decode to
/// the characters they spell.
#[verifier::external_body]
pub(crate) fn ascii_bytes_to_string(v: Vec<u8>) -> (r: String)
    requires
        forall|i: int| 0 <= i < v@.len() ==> v@[i] < 0x80,
    ensures
        r@ == ascii_chars_of(v@),
{
    String::from_utf8(v).unwrap_or_default()
}

/// Copies a byte vector element by element.
pub(crate) fn copy_bytes(v: &Vec<u8>) -> (r: Vec<u8>)
    ensures
        r@ == v@,
{
    let mut r: Vec<u8> = Vec::new();
    let mut i: usize = 0;
    while i < v.len()
        invariant
            i <= v.len(),
            r@ == v@.subrange(0, i as int),
        decreases v.len() - i,
    {
        r.push(v[i]);
        proof {
            assert(r@ =~= v@.subrange(0, i + 1));
        }
        i = i + 1;
    }
    proof {
        assert(r@ =~= v@);
    }
    r
}

impl Clone for SecretValue {
    /// Cloning copies the secret bytes.
    fn clone(&self) -> (r: Self)
        ensures
            r@ == self@,
    {
        SecretValue::new(copy_bytes(self.ref_sensitive_value()))
    }
}

impl PartialEq for SecretValue {
    fn eq(&self, other: &Self) -> (r: bool) {
        let r = self.0 == other.0;
        proof {
            if r {
                assert(self@ =~= other@);
            }
        }
        r
    }
}

impl Eq for SecretValue {

}

impl vstd::std_specs::cmp::PartialEqSpecImpl for SecretValue {
    open spec fn obeys_eq_spec() -> bool {
        true
    }

    open spec fn eq_spec(&self, other: &Self) -> bool {
        self@ == other@
    }
}

impl Drop for SecretValue {
    /// Relies on zeroize's `Zeroize for Vec<u8>`: the buffer is zeroized
    /// before its memory is released.
    #[verifier::external_body]
    fn drop(&mut self)
        opens_invariants none
        no_unwind
    {
        zeroize::Zeroize::zeroize(&mut self.0);
    }
}

} // verus!
