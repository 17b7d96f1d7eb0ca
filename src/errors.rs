//! The error taxonomy: every kind carries a public machine-readable code and
//! an internal detail message.

use vstd::prelude::*;

verus! {

/// Every failure the vault reports.
#[derive(Debug)]
pub enum SecretVaultError {
    SystemError(SecretVaultSystemError),
    DataNotFoundError(SecretVaultDataNotFoundError),
    InvalidParametersError(SecretVaultInvalidParametersError),
    NetworkError(SecretVaultNetworkError),
    EncryptionError(SecretVaultEncryptionError),
    MemoryError(SecretVaultMemoryError),
}

/// The public part of most errors: a machine-readable code.
#[derive(Debug, PartialEq, Clone)]
pub struct SecretVaultErrorPublicGenericDetails {
    pub code: String,
}

impl SecretVaultErrorPublicGenericDetails {
    pub fn new(code: String) -> (r: Self)
        ensures
            r.code == code,
    {
        SecretVaultErrorPublicGenericDetails { code }
    }
}

/// An unexpected or internal failure.
#[derive(Debug, PartialEq, Clone)]
pub struct SecretVaultSystemError {
    pub public: SecretVaultErrorPublicGenericDetails,
    pub message: String,
}

impl SecretVaultSystemError {
    pub fn new(public: SecretVaultErrorPublicGenericDetails, message: String) -> (r: Self)
        ensures
            r.public == public,
            r.message == message,
    {
        SecretVaultSystemError { public, message }
    }
}

/// A failure of a backing database.
#[derive(Debug, Clone)]
pub struct SecretVaultDatabaseError {
    pub public: SecretVaultErrorPublicGenericDetails,
    pub details: String,
    pub retry_possible: bool,
}

impl SecretVaultDatabaseError {
    pub fn new(public: SecretVaultErrorPublicGenericDetails, details: String, retry_possible: bool) -> (r:
        Self)
        ensures
            r.public == public,
            r.details == details,
            r.retry_possible == retry_possible,
    {
        SecretVaultDatabaseError { public, details, retry_possible }
    }
}

/// A conflict between two writes of the same data.
#[derive(Debug, Clone)]
pub struct SecretVaultDataConflictError {
    pub public: SecretVaultErrorPublicGenericDetails,
    pub details: String,
}

impl SecretVaultDataConflictError {
    pub fn new(public: SecretVaultErrorPublicGenericDetails, details: String) -> (r: Self)
        ensures
            r.public == public,
            r.details == details,
    {
        SecretVaultDataConflictError { public, details }
    }
}

/// A required reference that no source could resolve.
#[derive(Debug, Clone)]
pub struct SecretVaultDataNotFoundError {
    pub public: SecretVaultErrorPublicGenericDetails,
    pub data_detail_message: String,
}

impl SecretVaultDataNotFoundError {
    pub fn new(public: SecretVaultErrorPublicGenericDetails, data_detail_message: String) -> (r:
        Self)
        ensures
            r.public == public,
            r.data_detail_message == data_detail_message,
    {
        SecretVaultDataNotFoundError { public, data_detail_message }
    }
}

/// The public part of an invalid-parameters error: which field, and why.
#[derive(Debug, PartialEq, Clone)]
pub struct SecretVaultInvalidParametersPublicDetails {
    pub field: String,
    pub error: String,
}

impl SecretVaultInvalidParametersPublicDetails {
    pub fn new(field: String, error: String) -> (r: Self)
        ensures
            r.field == field,
            r.error == error,
    {
        SecretVaultInvalidParametersPublicDetails { field, error }
    }
}

/// A malformed reference or configuration supplied by the caller.
#[derive(Debug, Clone)]
pub struct SecretVaultInvalidParametersError {
    pub public: SecretVaultInvalidParametersPublicDetails,
}

impl SecretVaultInvalidParametersError {
    pub fn new(public: SecretVaultInvalidParametersPublicDetails) -> (r: Self)
        ensures
            r.public == public,
    {
        SecretVaultInvalidParametersError { public }
    }
}

/// The public part of an error about malformed JSON.
#[derive(Debug, PartialEq, Clone)]
pub struct SecretVaultInvalidJsonErrorPublicDetails {
    pub code: String,
}

impl SecretVaultInvalidJsonErrorPublicDetails {
    pub fn new(code: String) -> (r: Self)
        ensures
            r.code == code,
    {
        SecretVaultInvalidJsonErrorPublicDetails { code }
    }
}

/// A transport-level failure while talking to a source.
#[derive(Debug, PartialEq, Clone)]
pub struct SecretVaultNetworkError {
    pub public: SecretVaultErrorPublicGenericDetails,
    pub message: String,
}

impl SecretVaultNetworkError {
    pub fn new(public: SecretVaultErrorPublicGenericDetails, message: String) -> (r: Self)
        ensures
            r.public == public,
            r.message == message,
    {
        SecretVaultNetworkError { public, message }
    }
}

/// An encryption or decryption failure: a missing key, a tampered value, or
/// a context that does not match.
#[derive(Debug, PartialEq, Clone)]
pub struct SecretVaultEncryptionError {
    pub public: SecretVaultErrorPublicGenericDetails,
    pub message: String,
}

impl SecretVaultEncryptionError {
    pub fn new(public: SecretVaultErrorPublicGenericDetails, message: String) -> (r: Self)
        ensures
            r.public == public,
            r.message == message,
    {
        SecretVaultEncryptionError { public, message }
    }

    /// An encryption error with the given code and message.
    pub fn create(code: &str, message: &str) -> (r: SecretVaultError)
        ensures
            r matches SecretVaultError::EncryptionError(e) && e.public.code@ == code@
                && e.message@ == message@,
    {
        SecretVaultError::EncryptionError(
            SecretVaultEncryptionError::new(
                SecretVaultErrorPublicGenericDetails::new(code.to_owned()),
                message.to_owned(),
            ),
        )
    }
}

/// A failure to allocate or release secure memory.
#[derive(Debug, PartialEq, Clone)]
pub struct SecretVaultMemoryError {
    pub public: SecretVaultErrorPublicGenericDetails,
    pub message: String,
}

impl SecretVaultMemoryError {
    pub fn new(public: SecretVaultErrorPublicGenericDetails, message: String) -> (r: Self)
        ensures
            r.public == public,
            r.message == message,
    {
        SecretVaultMemoryError { public, message }
    }

    /// A memory error with the given code and message.
    pub fn create(code: &str, message: &str) -> (r: SecretVaultError)
        ensures
            r matches SecretVaultError::MemoryError(e) && e.public.code@ == code@ && e.message@
                == message@,
    {
        SecretVaultError::MemoryError(
            SecretVaultMemoryError::new(
                SecretVaultErrorPublicGenericDetails::new(code.to_owned()),
                message.to_owned(),
            ),
        )
    }
}

} // verus!

verus! {

/// The kind, code and message of an error, as plain values. For an
/// invalid-parameters error the code is the field and the message the reason.
pub open spec fn error_view(e: SecretVaultError) -> (int, Seq<char>, Seq<char>) {
    match e {
        SecretVaultError::SystemError(x) => (0, x.public.code@, x.message@),
        SecretVaultError::DataNotFoundError(x) => (1, x.public.code@, x.data_detail_message@),
        SecretVaultError::InvalidParametersError(x) => (2, x.public.field@, x.public.error@),
        SecretVaultError::NetworkError(x) => (3, x.public.code@, x.message@),
        SecretVaultError::EncryptionError(x) => (4, x.public.code@, x.message@),
        SecretVaultError::MemoryError(x) => (5, x.public.code@, x.message@),
    }
}

impl SecretVaultErrorPublicGenericDetails {
    fn duplicate(&self) -> (r: Self)
        ensures
            r.code@ == self.code@,
    {
        SecretVaultErrorPublicGenericDetails { code: self.code.clone() }
    }
}

impl SecretVaultError {
    /// A copy of the same kind, code and message.
    pub fn duplicate(&self) -> (r: Self)
        ensures
            error_view(r) == error_view(*self),
    {
        match self {
            SecretVaultError::SystemError(x) => SecretVaultError::SystemError(
                SecretVaultSystemError { public: x.public.duplicate(), message: x.message.clone() },
            ),
            SecretVaultError::DataNotFoundError(x) => SecretVaultError::DataNotFoundError(
                SecretVaultDataNotFoundError {
                    public: x.public.duplicate(),
                    data_detail_message: x.data_detail_message.clone(),
                },
            ),
            SecretVaultError::InvalidParametersError(x) => SecretVaultError::InvalidParametersError(
                SecretVaultInvalidParametersError {
                    public: SecretVaultInvalidParametersPublicDetails {
                        field: x.public.field.clone(),
                        error: x.public.error.clone(),
                    },
                },
            ),
            SecretVaultError::NetworkError(x) => SecretVaultError::NetworkError(
                SecretVaultNetworkError { public: x.public.duplicate(), message: x.message.clone() },
            ),
            SecretVaultError::EncryptionError(x) => SecretVaultError::EncryptionError(
                SecretVaultEncryptionError {
                    public: x.public.duplicate(),
                    message: x.message.clone(),
                },
            ),
            SecretVaultError::MemoryError(x) => SecretVaultError::MemoryError(
                SecretVaultMemoryError { public: x.public.duplicate(), message: x.message.clone() },
            ),
        }
    }
}

impl SecretVaultSystemError {
    /// A system error with the given code and message.
    pub fn create(code: &str, message: &str) -> (r: SecretVaultError)
        ensures
            error_view(r) == (0int, code@, message@),
    {
        SecretVaultError::SystemError(
            SecretVaultSystemError::new(
                SecretVaultErrorPublicGenericDetails::new(code.to_owned()),
                message.to_owned(),
            ),
        )
    }
}

impl SecretVaultDataNotFoundError {
    /// A data-not-found error with the given code and detail message.
    pub fn create(code: &str, message: String) -> (r: SecretVaultError)
        ensures
            error_view(r) == (1int, code@, message@),
    {
        SecretVaultError::DataNotFoundError(
            SecretVaultDataNotFoundError::new(
                SecretVaultErrorPublicGenericDetails::new(code.to_owned()),
                message,
            ),
        )
    }
}

} // verus!
