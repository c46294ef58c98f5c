//! Carriers for transient cleartext that wipe themselves when dropped.
//!
//! Encoded renderings of a secret and the transient copies handed to
//! `exposed_in_*` callbacks travel in these carriers, so that the cleartext
//! is wiped as soon as the carrier goes out of scope.

use vstd::prelude::*;

verus! {

/// A string carrier that zeroizes its buffer on drop.
#[verifier::external_body]
pub struct ZeroizingString {
    inner: zeroize::Zeroizing<String>,
}

/// The text a `ZeroizingString` carries.
pub uninterp spec fn zeroizing_string_view(z: &ZeroizingString) -> Seq<char>;

/// A byte carrier that zeroizes its buffer on drop.
#[verifier::external_body]
pub struct ZeroizingVec {
    inner: zeroize::Zeroizing<Vec<u8>>,
}

/// The bytes a `ZeroizingVec` carries.
pub uninterp spec fn zeroizing_vec_view(z: &ZeroizingVec) -> Seq<u8>;

impl ZeroizingString {
    /// Moves a string into the wipe-on-drop carrier.
    ///
    /// Relies on zeroize's `Zeroizing::new`: the wrapper holds exactly the
    /// given value and zeroizes it on drop.
    #[verifier::external_body]
    pub fn new(s: String) -> (z: Self)
        ensures
            zeroizing_string_view(&z) == s@,
    {
        ZeroizingString { inner: zeroize::Zeroizing::new(s) }
    }

    /// Borrows the carried text.
    ///
    /// Relies on `Zeroizing`'s `Deref`: it hands out the wrapped value.
    #[verifier::external_body]
    pub fn as_str(&self) -> (r: &str)
        ensures
            r@ == zeroizing_string_view(self),
    {
        self.inner.as_str()
    }
}

impl ZeroizingVec {
    /// Moves a byte vector into the wipe-on-drop carrier.
    ///
    /// Relies on zeroize's `Zeroizing::new`: the wrapper holds exactly the
    /// given value and zeroizes it on drop.
    #[verifier::external_body]
    pub fn new(v: Vec<u8>) -> (z: Self)
        ensures
            zeroizing_vec_view(&z) == v@,
    {
        ZeroizingVec { inner: zeroize::Zeroizing::new(v) }
    }

    /// Borrows the carried bytes.
    ///
    /// Relies on `Zeroizing`'s `Deref`: it hands out the wrapped value.
    #[verifier::external_body]
    pub fn as_bytes(&self) -> (r: &[u8])
        ensures
            r@ == zeroizing_vec_view(self),
    {
        self.inner.as_slice()
    }
}

} // verus!
