//! An in-process secret cache: values fetched from one or more sources are
//! held bound to their reference in a store, read back on demand through
//! narrowed views, and refreshed on a schedule.

use vstd::prelude::*;

pub mod errors;

mod grpc_status;
pub use grpc_status::{
    error_from_grpc_code, error_from_grpc_status, GRPC_CODE_NOT_FOUND, GRPC_CODE_UNKNOWN,
};

mod secure_value;
pub use secret_vault_value::SecretValue;
pub use secure_value::secret_value_bytes;

pub mod common_types;
pub use common_types::{
    version_view, Secret, SecretMetadata, SecretMetadataLabel, SecretName, SecretRefKey,
    SecretVaultRef, SecretVersion,
};

pub mod encryption;
pub use encryption::{
    EncryptedSecretValue, SecretVaultContextEncryption, SecretVaultEncryption,
    SecretVaultEncryptionContext,
};

pub mod vault_store;
pub use vault_store::{SecretVaultStore, SecretVaultStoreEntry};

pub mod multiple_sources;
pub use multiple_sources::{merge_source_results, SourceSecrets};

pub mod vault;
pub use vault::{SecretVault, SecretVaultSnapshot, SecretVaultViewer};

pub mod vault_auto_refresher;
pub use vault_auto_refresher::{
    AutoRefresherAction, AutoRefresherEvent, AutoRefresherState, SecretVaultAutoRefresher,
};

pub mod laws;

verus! {

/// The result type of every fallible operation of the vault.
pub type SecretVaultResult<T> = Result<T, errors::SecretVaultError>;

} // verus!
