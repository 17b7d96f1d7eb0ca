//! Mapping of a gRPC status, as a provider connector receives it, onto the
//! vault's error taxonomy.

use vstd::prelude::*;

use crate::errors::{
    error_view, SecretVaultDataNotFoundError, SecretVaultError, SecretVaultErrorPublicGenericDetails,
    SecretVaultNetworkError, SecretVaultSystemError,
};

verus! {

#[verifier::external_type_specification]
#[verifier::external_body]
pub struct ExGrpcStatus(tonic::Status);

/// The gRPC code of an unknown failure, which transports report.
pub const GRPC_CODE_UNKNOWN: i32 = 2;

/// The gRPC code of a missing entity.
pub const GRPC_CODE_NOT_FOUND: i32 = 5;

/// The name of the gRPC code numbered `code`, as the code's `Debug` form
/// writes it.
pub open spec fn grpc_code_name_of(code: i32) -> Seq<char> {
    if code == 0 {
        "Ok"@
    } else if code == 1 {
        "Cancelled"@
    } else if code == 2 {
        "Unknown"@
    } else if code == 3 {
        "InvalidArgument"@
    } else if code == 4 {
        "DeadlineExceeded"@
    } else if code == 5 {
        "NotFound"@
    } else if code == 6 {
        "AlreadyExists"@
    } else if code == 7 {
        "PermissionDenied"@
    } else if code == 8 {
        "ResourceExhausted"@
    } else if code == 9 {
        "FailedPrecondition"@
    } else if code == 10 {
        "Aborted"@
    } else if code == 11 {
        "OutOfRange"@
    } else if code == 12 {
        "Unimplemented"@
    } else if code == 13 {
        "Internal"@
    } else if code == 14 {
        "Unavailable"@
    } else if code == 15 {
        "DataLoss"@
    } else {
        "Unauthenticated"@
    }
}

/// The number of a status's gRPC code.
pub uninterp spec fn grpc_code_of(status: tonic::Status) -> i32;

/// Relies on `tonic::Status::code` and `From<Code> for i32`: the number of
/// the status's code, one of the seventeen gRPC codes.
#[verifier::external_body]
fn grpc_code_number(status: &tonic::Status) -> (r: i32)
    ensures
        r == grpc_code_of(*status),
        0 <= r <= 16,
{
    i32::from(status.code())
}

/// Relies on the derived `Debug` form of `tonic::Code`: the variant's name.
#[verifier::external_body]
fn grpc_code_name(status: &tonic::Status) -> (r: String)
    ensures
        r@ == grpc_code_name_of(grpc_code_of(*status)),
{
    format!("{:?}", status.code())
}

/// Relies on the `Display` form of `tonic::Status`: its code, message and
/// details as text. The text may include that of an error the status wraps,
/// so nothing is stated of it.
#[verifier::external_body]
fn grpc_status_text(status: &tonic::Status) -> (r: String) {
    format!("{}", status)
}

/// The error for a gRPC status with code number `code`, code name
/// `code_name` and text `text`: a missing entity is data not found, an
/// unknown failure is a transport failure, anything else a system error.
pub fn error_from_grpc_code(code: i32, code_name: String, text: String) -> (r: SecretVaultError)
    ensures
        error_view(r) == (if code == GRPC_CODE_NOT_FOUND {
            1int
        } else if code == GRPC_CODE_UNKNOWN {
            3int
        } else {
            0int
        }, code_name@, text@),
{
    let public = SecretVaultErrorPublicGenericDetails::new(code_name);
    if code == GRPC_CODE_NOT_FOUND {
        SecretVaultError::DataNotFoundError(SecretVaultDataNotFoundError::new(public, text))
    } else if code == GRPC_CODE_UNKNOWN {
        SecretVaultError::NetworkError(SecretVaultNetworkError::new(public, text))
    } else {
        SecretVaultError::SystemError(SecretVaultSystemError::new(public, text))
    }
}

/// The error for a gRPC status.
pub fn error_from_grpc_status(status: &tonic::Status) -> (r: SecretVaultError)
    ensures
        error_view(r).0 == (if grpc_code_of(*status) == GRPC_CODE_NOT_FOUND {
            1int
        } else if grpc_code_of(*status) == GRPC_CODE_UNKNOWN {
            3int
        } else {
            0int
        }),
        error_view(r).1 == grpc_code_name_of(grpc_code_of(*status)),
{
    let code = grpc_code_number(status);
    error_from_grpc_code(code, grpc_code_name(status), grpc_status_text(status))
}

} // verus!
