//! An in-process vault for application secrets.
//!
//! Secrets are pulled from a source, held encrypted in memory under a
//! per-vault data-encryption key, and served to callers on demand.  The
//! `SecretValue` container wipes its bytes when it is dropped, and renders
//! as `"***"` so that secrets do not leak through logs.

mod base64_support;
mod common_types;
mod encryption;
mod env_source;
mod files_source;
mod hash_map_snapshot;
mod hex_support;
mod mock_source;
mod multiple_sources;
mod ring_encryption_support;
mod secrets_source;
mod temp_secretgen_source;
mod value;
mod vault;
mod vault_auto_refresher;
mod vault_builder;
mod vault_snapshot;
mod vault_store;
mod vault_viewer;
mod zeroizing;
pub mod errors;
pub mod kms_encryption;
pub mod ring_encryption;

pub use base64_support::b64_decode_bytes;
pub use base64_support::b64_encode_bytes;
pub use base64_support::lemma_b64_round_trip;
pub use common_types::registered_key;
pub use common_types::Secret;
pub use common_types::SecretExpiration;
pub use common_types::SecretMetadata;
pub use common_types::SecretMetadataAnnotation;
pub use common_types::SecretMetadataLabel;
pub use common_types::SecretMetadataPairView;
pub use common_types::SecretMetadataView;
pub use common_types::SecretName;
pub use common_types::SecretNamespace;
pub use common_types::SecretVaultKey;
pub use common_types::SecretVaultKeyView;
pub use common_types::SecretVaultRef;
pub use common_types::SecretVaultRefView;
pub use common_types::SecretVersion;
pub use common_types::SecretView;
pub use encryption::EncryptedSecretValue;
pub use encryption::SecretVaultEncryption;
pub use encryption::SecretVaultNoEncryption;
pub use env_source::env_secret_name;
pub use errors::kms_status_error;
pub use errors::SecretVaultError;
pub use errors::SecretVaultResult;
pub use files_source::FilesSourceOptions;
pub use files_source::secret_file_name;
pub use hash_map_snapshot::SecretVaultHashMapSnapshot;
pub use hash_map_snapshot::SecretVaultHashMapSnapshotBuilder;
pub use hex_support::hex_decode_bytes;
pub use hex_support::hex_encode_bytes;
pub use hex_support::lemma_hex_round_trip;
pub use kms_encryption::MockKmsKeyWrapper;
pub use kms_encryption::SecretVaultKmsEnvelopeEncryption;
pub use kms_encryption::SecretVaultKmsKeyWrapper;
pub use mock_source::MockSecretsSource;
pub use multiple_sources::MultipleSecretsSources;
pub use ring_encryption::SecretVaultRingAeadEncryption;
pub use ring_encryption_support::CHACHA_KEY_LEN;
pub use ring_encryption_support::CHACHA_NONCE_LEN;
pub use ring_encryption_support::chacha_open;
pub use ring_encryption_support::chacha_seal;
pub use ring_encryption_support::decrypt_with_opening_key;
pub use ring_encryption_support::encrypt_with_sealing_key;
pub use ring_encryption_support::generate_nonce;
pub use ring_encryption_support::generate_session_secret;
pub use encryption::MAX_AEAD_PLAINTEXT_LEN;
pub use secrets_source::collect_source_results;
pub use secrets_source::found_results;
pub use secrets_source::SecretsSource;
pub use temp_secretgen_source::generate_secret_value;
pub use temp_secretgen_source::generated_shape;
pub use temp_secretgen_source::TempSecretGenSource;
pub use temp_secretgen_source::TempSecretGenSourceOptions;
pub use temp_secretgen_source::TempSecretOptions;
pub use value::bytes_mut_view;
pub use value::SecretValue;
pub use value::SecretValueDecodeError;
pub use vault::allowed_key;
pub use vault::lemma_register_idempotent;
pub use vault::pairs_have_key;
pub use vault::ref_views_without;
pub use vault::SecretVault;
pub use vault::snapshot_expected;
pub use vault_auto_refresher::auto_refresh_enabled;
pub use vault_auto_refresher::SecretVaultAutoRefresherOptions;
pub use vault_builder::SecretVaultBuilder;
pub use vault_snapshot::secrets_lookup;
pub use vault_snapshot::SecretVaultSnapshot;
pub use vault_snapshot::SecretVaultSnapshotBuilder;
pub use vault_store::refs_views;
pub use vault_store::SecretVaultStore;
pub use vault_store::SecretVaultStoreValue;
pub use vault_store::SecretVaultStoreValueView;
pub use vault_viewer::name_key;
pub use vault_viewer::SecretVaultViewer;
pub use zeroizing::zeroizing_string_view;
pub use zeroizing::zeroizing_vec_view;
pub use zeroizing::ZeroizingString;
pub use zeroizing::ZeroizingVec;
