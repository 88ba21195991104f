//! GPGME constants and the plain-value models of the GPGME result and key
//! records (the C layouts themselves are built from these at the C boundary).

use vstd::prelude::*;

verus! {

/// Validity level: unknown.
pub const GPGME_VALIDITY_UNKNOWN: u32 = 0;
/// Validity level: full.
pub const GPGME_VALIDITY_FULL: u32 = 4;
/// Signature summary flag: signature is valid.
pub const GPGME_SIGSUM_VALID: u32 = 0x0001;
/// Signature summary flag: green (good) signature.
pub const GPGME_SIGSUM_GREEN: u32 = 0x0002;
/// Signature summary flag: red (bad) signature.
pub const GPGME_SIGSUM_RED: u32 = 0x0004;
/// Signature summary flag: signing key is missing.
pub const GPGME_SIGSUM_KEY_MISSING: u32 = 0x0080;
/// Keylist mode flag: use the local keyring.
pub const GPGME_KEYLIST_MODE_LOCAL: u32 = 0x0001;
/// Keylist mode flag: look keys up externally (on the key servers) too.
pub const GPGME_KEYLIST_MODE_EXTERN: u32 = 0x0002;
/// Protocol identifier for `OpenPGP`.
pub const GPGME_PROTOCOL_OPENPGP: u32 = 0;
/// Data encoding: no specific encoding (binary).
pub const GPGME_DATA_ENCODING_NONE: u32 = 0;
/// Signature mode: normal (inline) signature.
pub const GPGME_SIG_MODE_NORMAL: u32 = 0;
/// Signature mode: detached signature.
pub const GPGME_SIG_MODE_DETACH: u32 = 1;
/// Signature mode: cleartext signature.
pub const GPGME_SIG_MODE_CLEAR: u32 = 2;

/// A single signature result (one node of the GPGME signature list).
pub struct GpgmeSig {
    /// Bitmask of `GPGME_SIGSUM_*` flags.
    pub summary: u32,
    /// Hex fingerprint of the signing key, if known.
    pub fpr: Option<String>,
    /// Error code for this signature.
    pub status: u32,
    /// Creation timestamp (Unix seconds).
    pub timestamp: u64,
    /// Expiry timestamp (Unix seconds, 0 = no expiry).
    pub exp_timestamp: u64,
    /// Validity level (`GPGME_VALIDITY_*`).
    pub validity: u32,
}

/// Aggregate result of a verify operation.
pub struct GpgmeVerifyResult {
    /// The per-signature results, in order.
    pub signatures: Vec<GpgmeSig>,
    /// File name embedded in the message (never set).
    pub file_name: Option<String>,
    /// Non-zero if the message is MIME (never set).
    pub is_mime: u32,
}

/// Status entry for a single imported key.
pub struct GpgmeImportStatus {
    /// Fingerprint of the imported key.
    pub fpr: Option<String>,
    /// Per-key error code.
    pub error: u32,
    /// Import result code.
    pub result: u32,
    /// Import status flags.
    pub status: u32,
}

/// Aggregate result of an import operation.
pub struct GpgmeImportResult {
    /// Total number of keys considered.
    pub considered: i32,
    /// Keys without a user ID.
    pub no_user_id: i32,
    /// Number of newly imported keys.
    pub imported: i32,
    /// Number of newly imported RSA keys.
    pub imported_rsa: i32,
    /// Number of unchanged keys.
    pub unchanged: i32,
    /// New user IDs added.
    pub new_user_ids: i32,
    /// New subkeys added.
    pub new_sub_keys: i32,
    /// New signatures added.
    pub new_signatures: i32,
    /// New revocations added.
    pub new_revocations: i32,
    /// Secret keys read.
    pub secret_read: i32,
    /// Secret keys imported.
    pub secret_imported: i32,
    /// Unchanged secret keys.
    pub secret_unchanged: i32,
    /// New keys skipped.
    pub skipped_new_keys: i32,
    /// Keys not imported.
    pub not_imported: i32,
    /// Whether the per-key status list is attached (it then holds the
    /// context's single import status entry).
    pub imports: bool,
    /// V3 keys skipped.
    pub skipped_v3_keys: i32,
}

/// Result of an encrypt operation.
pub struct GpgmeEncryptResult {
    /// Fingerprints of invalid recipients (always empty in this implementation).
    pub invalid_recipients: Vec<String>,
}

/// Result of a sign operation.
pub struct GpgmeSignResult {
    /// Fingerprints of invalid signers (always empty in this implementation).
    pub invalid_signers: Vec<String>,
    /// Fingerprints of keys that made new signatures (always empty in this implementation).
    pub signatures: Vec<String>,
}

/// Result of a decrypt operation (no field is ever set).
pub struct GpgmeDecryptResult {
    /// Unsupported algorithm string.
    pub unsupported_algorithm: Option<String>,
    /// Packed bit-flags.
    pub bitflags: u32,
    /// Fingerprints of recipients.
    pub recipients: Vec<String>,
    /// File name embedded in the message.
    pub file_name: Option<String>,
    /// Session key string.
    pub session_key: Option<String>,
    /// Symmetric-key algorithm string.
    pub symkey_algo: Option<String>,
}

/// Information about a crypto engine available to GPGME.
pub struct GpgmeEngineInfo {
    /// Protocol this engine implements.
    pub protocol: u32,
    /// Path to the engine executable.
    pub file_name: String,
    /// Engine version string.
    pub version: String,
    /// Minimum required engine version.
    pub req_version: String,
    /// `GnuPG` home directory used by the engine (never set).
    pub home_dir: Option<String>,
}

/// The primary key of a certificate as presented through the GPGME API.
pub struct GpgmeSubkey {
    /// Packed bit-flags (revoked, expired, disabled, ...).
    pub bitflags: u32,
    /// Public-key algorithm identifier.
    pub pubkey_algo: u32,
    /// Key length in bits.
    pub length: u32,
    /// Hex key-ID string.
    pub keyid: Option<String>,
    /// Hex fingerprint string.
    pub fpr: Option<String>,
    /// Creation timestamp (Unix seconds).
    pub timestamp: i64,
    /// Expiry timestamp (Unix seconds, 0 = no expiry).
    pub expires: i64,
}

/// A user ID as presented through the GPGME API.
pub struct GpgmeUserId {
    /// Packed bit-flags (revoked, invalid, ...).
    pub bitflags: u32,
    /// Validity level of this user ID.
    pub validity: u32,
    /// Raw user-ID string.
    pub uid: Option<String>,
    /// Name component.
    pub name: Option<String>,
    /// E-mail component.
    pub email: Option<String>,
    /// Comment component.
    pub comment: Option<String>,
}

/// A key (certificate) as presented through the GPGME API.
pub struct GpgmeKey {
    /// Reference count (the key is freed when it drops to zero).
    pub refs: u32,
    /// Packed bit-flags (bit 0: revoked).
    pub bitflags: u32,
    /// Protocol this key belongs to.
    pub protocol: u32,
    /// Owner trust level.
    pub owner_trust: u32,
    /// The primary key, when present.
    pub subkeys: Option<GpgmeSubkey>,
    /// The first user ID, when present.
    pub uids: Option<GpgmeUserId>,
    /// Keylist mode in effect when this key was retrieved.
    pub keylist_mode: u32,
    /// Hex fingerprint of the primary key.
    pub fpr: Option<String>,
    /// Timestamp of the last key-server update.
    pub last_update: u64,
}

} // verus!
