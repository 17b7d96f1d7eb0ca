//! The secure byte buffer that holds every plaintext value: it never prints
//! its contents and is zeroed when dropped.

use vstd::prelude::*;

verus! {

#[verifier::external_type_specification]
#[verifier::external_body]
pub struct ExSecretValue(secret_vault_value::SecretValue);

/// The bytes that a secure value holds.
pub uninterp spec fn secret_value_bytes(v: secret_vault_value::SecretValue) -> Seq<u8>;

/// Relies on `SecretValue::new`: takes ownership of the bytes, unchanged.
pub assume_specification[ secret_vault_value::SecretValue::new ](src: Vec<u8>) -> (r: secret_vault_value::SecretValue)
    ensures
        secret_value_bytes(r) == src@,
;

/// Relies on `SecretValue::ref_sensitive_value`: borrows the bytes held.
pub assume_specification[ secret_vault_value::SecretValue::ref_sensitive_value ](v: &secret_vault_value::SecretValue) -> (r: &Vec<u8>)
    ensures
        r@ == secret_value_bytes(*v),
;

/// Relies on `SecretValue`'s `Clone`: a second buffer with the same bytes.
pub assume_specification[ <secret_vault_value::SecretValue as Clone>::clone ](v: &secret_vault_value::SecretValue) -> (r: secret_vault_value::SecretValue)
    ensures
        secret_value_bytes(r) == secret_value_bytes(*v),
;

} // verus!
