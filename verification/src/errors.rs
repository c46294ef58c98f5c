//! The error model of the vault.
//!
//! Every failure is one tagged variant carrying a public, stable code and an
//! internal message.  No secret bytes ever appear in an error: messages are
//! built from codes and context only.

use vstd::prelude::*;

verus! {

/// The public, stable part of an error: a short code.
#[derive(Debug)]
pub struct SecretVaultErrorPublicGenericDetails {
    pub code: String,
}

impl SecretVaultErrorPublicGenericDetails {
    pub fn new(code: String) -> (r: Self)
        ensures
            r.code == code,
    {
        Self { code }
    }
}

impl Clone for SecretVaultErrorPublicGenericDetails {
    fn clone(&self) -> (r: Self)
        ensures
            r.code@ == self.code@,
    {
        Self { code: self.code.clone() }
    }
}

/// An invariant violation or unexpected internal state.
#[derive(Debug)]
pub struct SecretVaultSystemError {
    pub public: SecretVaultErrorPublicGenericDetails,
    pub message: String,
}

impl SecretVaultSystemError {
    pub fn new(public: SecretVaultErrorPublicGenericDetails, message: String) -> (r: Self)
        ensures
            r.public == public,
            r.message == message,
    {
        Self { public, message }
    }
}

/// A general backing-store failure, possibly worth a retry.
#[derive(Debug)]
pub struct SecretVaultDatabaseError {
    pub public: SecretVaultErrorPublicGenericDetails,
    pub details: String,
    pub retry_possible: bool,
}

impl SecretVaultDatabaseError {
    pub fn new(
        public: SecretVaultErrorPublicGenericDetails,
        details: String,
        retry_possible: bool,
    ) -> (r: Self)
        ensures
            r.public == public,
            r.details == details,
            r.retry_possible == retry_possible,
    {
        Self { public, details, retry_possible }
    }
}

/// A conflicting write observed by the backing store.
#[derive(Debug)]
pub struct SecretVaultDataConflictError {
    pub public: SecretVaultErrorPublicGenericDetails,
    pub details: String,
}

impl SecretVaultDataConflictError {
    pub fn new(public: SecretVaultErrorPublicGenericDetails, details: String) -> (r: Self)
        ensures
            r.public == public,
            r.details == details,
    {
        Self { public, details }
    }
}

/// A required secret that no source could provide.
#[derive(Debug)]
pub struct SecretVaultDataNotFoundError {
    pub public: SecretVaultErrorPublicGenericDetails,
    pub data_detail_message: String,
}

impl SecretVaultDataNotFoundError {
    pub fn new(public: SecretVaultErrorPublicGenericDetails, data_detail_message: String) -> (r:
        Self)
        ensures
            r.public == public,
            r.data_detail_message == data_detail_message,
    {
        Self { public, data_detail_message }
    }
}

impl Clone for SecretVaultDataNotFoundError {
    fn clone(&self) -> (r: Self)
        ensures
            r.public.code@ == self.public.code@,
            r.data_detail_message@ == self.data_detail_message@,
    {
        Self { public: self.public.clone(), data_detail_message: self.data_detail_message.clone() }
    }
}

/// The public part of a configuration fault: the field and what is wrong.
#[derive(Debug)]
pub struct SecretVaultInvalidParametersPublicDetails {
    pub field: String,
    pub error: String,
}

impl SecretVaultInvalidParametersPublicDetails {
    pub fn new(field: String, error: String) -> (r: Self)
        ensures
            r.field == field,
            r.error == error,
    {
        Self { field, error }
    }
}

/// Missing or unusable configuration.
#[derive(Debug)]
pub struct SecretVaultInvalidParametersError {
    pub public: SecretVaultInvalidParametersPublicDetails,
}

impl SecretVaultInvalidParametersError {
    pub fn new(public: SecretVaultInvalidParametersPublicDetails) -> (r: Self)
        ensures
            r.public == public,
    {
        Self { public }
    }
}

/// The public part of a JSON fault.
#[derive(Debug)]
pub struct SecretVaultInvalidJsonErrorPublicDetails {
    pub code: String,
}

impl SecretVaultInvalidJsonErrorPublicDetails {
    pub fn new(code: String) -> (r: Self)
        ensures
            r.code == code,
    {
        Self { code }
    }
}

/// A transient transport failure; retrying is sound.
#[derive(Debug)]
pub struct SecretVaultNetworkError {
    pub public: SecretVaultErrorPublicGenericDetails,
    pub message: String,
}

impl SecretVaultNetworkError {
    pub fn new(public: SecretVaultErrorPublicGenericDetails, message: String) -> (r: Self)
        ensures
            r.public == public,
            r.message == message,
    {
        Self { public, message }
    }
}

/// An AEAD, key-generation or key-wrapping failure.
#[derive(Debug)]
pub struct SecretVaultEncryptionError {
    pub public: SecretVaultErrorPublicGenericDetails,
    pub message: String,
}

impl SecretVaultEncryptionError {
    pub fn new(public: SecretVaultErrorPublicGenericDetails, message: String) -> (r: Self)
        ensures
            r.public == public,
            r.message == message,
    {
        Self { public, message }
    }

    /// Builds the tagged encryption-error variant from a code and a message.
    pub fn create(code: &str, message: &str) -> (r: SecretVaultError)
        ensures
            r matches SecretVaultError::EncryptionError(e) && e.public.code@ == code@
                && e.message@ == message@,
    {
        SecretVaultError::EncryptionError(
            SecretVaultEncryptionError::new(
                SecretVaultErrorPublicGenericDetails::new(code.to_owned()),
                message.to_owned(),
            ),
        )
    }
}

/// A source-specific failure not classified elsewhere.
#[derive(Debug)]
pub struct SecretsSourceError {
    pub public: SecretVaultErrorPublicGenericDetails,
    pub message: String,
}

impl SecretsSourceError {
    pub fn new(public: SecretVaultErrorPublicGenericDetails, message: String) -> (r: Self)
        ensures
            r.public == public,
            r.message == message,
    {
        Self { public, message }
    }
}

/// Sorts a key-management service failure into the error family.  The
/// status is the usual wire numbering: cancelled is one, not-found five,
/// resource-exhausted eight, aborted ten, unavailable fourteen.  A
/// missing key is data-not-found; everything else is a transient network
/// failure, safe to retry, with any unlisted status reading as unknown.
pub fn kms_status_error(status_code: u32, message: String) -> (r: SecretVaultError)
    ensures
        status_code == 5 ==> (r matches SecretVaultError::DataNotFoundError(d)
            && d.public.code@ == "NotFound"@ && d.data_detail_message == message),
        status_code != 5 ==> (r matches SecretVaultError::NetworkError(n) && n.message == message
            && n.public.code@ == (if status_code == 1 {
            "Cancelled"@
        } else if status_code == 8 {
            "ResourceExhausted"@
        } else if status_code == 10 {
            "Aborted"@
        } else if status_code == 14 {
            "Unavailable"@
        } else {
            "Unknown"@
        })),
{
    if status_code == 5 {
        SecretVaultError::DataNotFoundError(
            SecretVaultDataNotFoundError::new(
                SecretVaultErrorPublicGenericDetails::new("NotFound".to_owned()),
                message,
            ),
        )
    } else {
        let code: &str = if status_code == 1 {
            "Cancelled"
        } else if status_code == 8 {
            "ResourceExhausted"
        } else if status_code == 10 {
            "Aborted"
        } else if status_code == 14 {
            "Unavailable"
        } else {
            "Unknown"
        };
        SecretVaultError::NetworkError(
            SecretVaultNetworkError::new(
                SecretVaultErrorPublicGenericDetails::new(code.to_owned()),
                message,
            ),
        )
    }
}

/// Any failure the vault can report.
#[derive(Debug)]
pub enum SecretVaultError {
    SystemError(SecretVaultSystemError),
    DataNotFoundError(SecretVaultDataNotFoundError),
    InvalidParametersError(SecretVaultInvalidParametersError),
    NetworkError(SecretVaultNetworkError),
    EncryptionError(SecretVaultEncryptionError),
    SecretsSourceError(SecretsSourceError),
}

/// What a vault operation returns: a value, or a tagged error.
pub type SecretVaultResult<T> = Result<T, SecretVaultError>;

} // verus!
