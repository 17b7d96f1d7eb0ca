//! Binding of each stored value to the identity of its reference, so that a
//! value stored for one reference cannot be read back under another.

use vstd::prelude::*;

use crate::common_types::{SecretRefKey, SecretVaultRef};
use crate::errors::{SecretVaultEncryptionError, SecretVaultError};
use crate::secure_value::secret_value_bytes;
use crate::SecretVaultResult;
use secret_vault_value::SecretValue;

verus! {

/// The associated-data context of a value: the name and version of its
/// reference, derived deterministically from it.
pub struct SecretVaultEncryptionContext {
    pub name: String,
    pub version: Option<String>,
}

impl View for SecretVaultEncryptionContext {
    type V = SecretRefKey;

    open spec fn view(&self) -> SecretRefKey {
        (
            self.name@,
            match self.version {
                Some(v) => Some(v@),
                None => None,
            },
        )
    }
}

impl SecretVaultEncryptionContext {
    /// The context of a reference.
    pub fn from_ref(secret_ref: &SecretVaultRef) -> (r: Self)
        ensures
            r@ == secret_ref.key(),
    {
        let version = match &secret_ref.secret_version {
            Some(v) => Some(v.0.clone()),
            None => None,
        };
        SecretVaultEncryptionContext { name: secret_ref.secret_name.0.clone(), version }
    }

    /// Whether two contexts are the same.
    pub fn matches(&self, other: &SecretVaultEncryptionContext) -> (r: bool)
        ensures
            r == (self@ == other@),
    {
        if self.name != other.name {
            return false;
        }
        match (&self.version, &other.version) {
            (Some(a), Some(b)) => *a == *b,
            (None, None) => true,
            _ => false,
        }
    }
}

/// A value sealed under a context. Its bytes are held in a secure buffer,
/// zeroed when the sealed value is dropped.
pub struct EncryptedSecretValue {
    context: SecretVaultEncryptionContext,
    payload: SecretValue,
}

impl EncryptedSecretValue {
    /// The context the value was sealed under.
    pub closed spec fn context_key(&self) -> SecretRefKey {
        self.context@
    }

    /// The plaintext that the value opens to under its own context.
    pub closed spec fn sealed_bytes(&self) -> Seq<u8> {
        secret_value_bytes(self.payload)
    }
}

/// An encryption backend: seals a plaintext under the context of its
/// reference, and opens a sealed value only under that same context.
pub trait SecretVaultEncryption: Sized {
    /// What a sealed value is held as.
    type Sealed;

    /// The plaintext that `sealed` opens to under `context`, or `None` when
    /// it does not open there.
    spec fn opens_to(&self, context: SecretRefKey, sealed: Self::Sealed) -> Option<Seq<u8>>;

    /// Neither sealing nor opening under the sealing context ever fails
    /// with this backend.
    spec fn infallible(&self) -> bool;

    /// Seals `plain` under `context`.
    fn encrypt_value(
        &self,
        context: &SecretVaultEncryptionContext,
        plain: &SecretValue,
    ) -> (r: SecretVaultResult<Self::Sealed>)
        ensures
            r is Ok ==> self.opens_to(context@, r.unwrap()) == Some(secret_value_bytes(*plain)),
            self.infallible() ==> r is Ok,
            r is Err ==> (r matches Err(SecretVaultError::EncryptionError(_))),
    ;

    /// Opens `sealed` under `context`: its plaintext where it opens there, an
    /// encryption error where it does not. A backend may also fail where it
    /// opens (a key that is unavailable), but never hands out other bytes.
    fn decrypt_value(&self, context: &SecretVaultEncryptionContext, sealed: &Self::Sealed) -> (r:
        SecretVaultResult<SecretValue>)
        ensures
            r is Ok ==> self.opens_to(context@, *sealed) is Some && secret_value_bytes(r.unwrap())
                == self.opens_to(context@, *sealed).unwrap(),
            self.infallible() && self.opens_to(context@, *sealed) is Some ==> r is Ok,
            r is Err ==> (r matches Err(SecretVaultError::EncryptionError(_))),
            self.opens_to(context@, *sealed) is None ==> r matches Err(
                SecretVaultError::EncryptionError(_),
            ),
    ;

    /// A sealed value that opens under one context opens under no other.
    proof fn lemma_bound_to_context(&self, c1: SecretRefKey, c2: SecretRefKey, sealed: Self::Sealed)
        requires
            self.opens_to(c1, sealed) is Some,
            c1 != c2,
        ensures
            self.opens_to(c2, sealed) is None,
    ;
}

/// Seals values under their context and opens them only under the same
/// context. It authenticates the context but does not encipher the bytes:
/// their secrecy in memory rests on the secure buffer alone.
pub struct SecretVaultContextEncryption;

impl SecretVaultContextEncryption {
    pub fn new() -> (r: Self) {
        SecretVaultContextEncryption
    }
}

impl SecretVaultEncryption for SecretVaultContextEncryption {
    type Sealed = EncryptedSecretValue;

    open spec fn opens_to(&self, context: SecretRefKey, sealed: EncryptedSecretValue) -> Option<
        Seq<u8>,
    > {
        if sealed.context_key() == context {
            Some(sealed.sealed_bytes())
        } else {
            None
        }
    }

    open spec fn infallible(&self) -> bool {
        true
    }

    fn encrypt_value(
        &self,
        context: &SecretVaultEncryptionContext,
        plain: &SecretValue,
    ) -> (r: SecretVaultResult<EncryptedSecretValue>) {
        let version = match &context.version {
            Some(v) => Some(v.clone()),
            None => None,
        };
        let sealed_context = SecretVaultEncryptionContext { name: context.name.clone(), version };
        Ok(EncryptedSecretValue { context: sealed_context, payload: plain.clone() })
    }

    fn decrypt_value(
        &self,
        context: &SecretVaultEncryptionContext,
        sealed: &EncryptedSecretValue,
    ) -> (r: SecretVaultResult<SecretValue>) {
        if sealed.context.matches(context) {
            Ok(sealed.payload.clone())
        } else {
            Err(
                SecretVaultEncryptionError::create(
                    "CONTEXT_MISMATCH",
                    "The value was sealed under another reference",
                ),
            )
        }
    }

    proof fn lemma_bound_to_context(
        &self,
        c1: SecretRefKey,
        c2: SecretRefKey,
        sealed: EncryptedSecretValue,
    ) {
    }
}

} // verus!
