//! The GPGME context: per-context settings, keylist state and results.

use vstd::prelude::*;

use sequoia_openpgp::Cert;

use crate::ffi_types::{
    GPGME_KEYLIST_MODE_LOCAL, GPGME_PROTOCOL_OPENPGP, GpgmeDecryptResult, GpgmeEncryptResult,
    GpgmeImportResult, GpgmeImportStatus, GpgmeSignResult, GpgmeVerifyResult,
};

verus! {

/// Internal context object; aliased as `GpgmeCtx`. (The application's
/// passphrase callback and its hook pointer are kept beside it at the C
/// boundary.)
pub struct SqCtx {
    /// Result storage for the last decrypt operation.
    pub decrypt_result: GpgmeDecryptResult,
    /// Result storage for the last encrypt operation.
    pub encrypt_result: GpgmeEncryptResult,
    /// `GnuPG` home directory for this context.
    pub home_dir: String,
    /// Result storage for the last import operation.
    pub import_result: GpgmeImportResult,
    /// Status entry for the last import operation.
    pub import_status: GpgmeImportStatus,
    /// Certificates loaded for the current keylist iteration.
    pub keylist_certs: Vec<Cert>,
    /// Active keylist mode flags.
    pub keylist_mode: u32,
    /// Current position within `keylist_certs`.
    pub keylist_pos: usize,
    /// Active protocol (always `OpenPGP`).
    pub protocol: u32,
    /// Result storage for the last sign operation.
    pub sign_result: GpgmeSignResult,
    /// Fingerprints of keys that should sign outgoing messages.
    pub signer_fprs: Vec<String>,
    /// Result storage for the last verify operation.
    pub verify_result: GpgmeVerifyResult,
}

/// C-ABI alias for [`SqCtx`].
pub type GpgmeCtx = SqCtx;

/// The import result a context reports before any import: the fixed report
/// of one key considered and imported, every other counter zero, no status
/// attached.
pub open spec fn is_stub_import_result(r: GpgmeImportResult) -> bool {
    r.considered == 1 && r.no_user_id == 0 && r.imported == 1 && r.imported_rsa == 0
        && r.unchanged == 0 && r.new_user_ids == 0 && r.new_sub_keys == 0 && r.new_signatures == 0
        && r.new_revocations == 0 && r.secret_read == 0 && r.secret_imported == 0
        && r.secret_unchanged == 0 && r.skipped_new_keys == 0 && r.not_imported == 0 && !r.imports
        && r.skipped_v3_keys == 0
}

/// A freshly created context for `home_dir`.
pub open spec fn is_fresh_ctx(c: SqCtx, home_dir: Seq<char>) -> bool {
    &&& c.home_dir@ == home_dir
    &&& c.keylist_mode == GPGME_KEYLIST_MODE_LOCAL
    &&& c.protocol == GPGME_PROTOCOL_OPENPGP
    &&& c.signer_fprs@.len() == 0
    &&& c.keylist_certs@.len() == 0
    &&& c.keylist_pos == 0
    &&& c.verify_result.signatures@.len() == 0
    &&& c.verify_result.file_name is None
    &&& c.verify_result.is_mime == 0
    &&& is_stub_import_result(c.import_result)
    &&& c.import_status.fpr is None && c.import_status.error == 0 && c.import_status.result == 0
        && c.import_status.status == 0
    &&& c.encrypt_result.invalid_recipients@.len() == 0
    &&& c.sign_result.invalid_signers@.len() == 0 && c.sign_result.signatures@.len() == 0
    &&& c.decrypt_result.unsupported_algorithm is None && c.decrypt_result.bitflags == 0
        && c.decrypt_result.recipients@.len() == 0 && c.decrypt_result.file_name is None
        && c.decrypt_result.session_key is None && c.decrypt_result.symkey_algo is None
}

impl SqCtx {
    /// A new context using the given `GnuPG` home directory.
    pub fn new(home_dir: String) -> (c: SqCtx)
        ensures
            is_fresh_ctx(c, home_dir@),
    {
        SqCtx {
            home_dir,
            keylist_mode: GPGME_KEYLIST_MODE_LOCAL,
            protocol: GPGME_PROTOCOL_OPENPGP,
            signer_fprs: Vec::new(),
            verify_result: GpgmeVerifyResult { signatures: Vec::new(), file_name: None, is_mime: 0 },
            import_result: GpgmeImportResult {
                considered: 1,
                no_user_id: 0,
                imported: 1,
                imported_rsa: 0,
                unchanged: 0,
                new_user_ids: 0,
                new_sub_keys: 0,
                new_signatures: 0,
                new_revocations: 0,
                secret_read: 0,
                secret_imported: 0,
                secret_unchanged: 0,
                skipped_new_keys: 0,
                not_imported: 0,
                imports: false,
                skipped_v3_keys: 0,
            },
            import_status: GpgmeImportStatus { fpr: None, error: 0, result: 0, status: 0 },
            encrypt_result: GpgmeEncryptResult { invalid_recipients: Vec::new() },
            sign_result: GpgmeSignResult { invalid_signers: Vec::new(), signatures: Vec::new() },
            decrypt_result: GpgmeDecryptResult {
                unsupported_algorithm: None,
                bitflags: 0,
                recipients: Vec::new(),
                file_name: None,
                session_key: None,
                symkey_algo: None,
            },
            keylist_certs: Vec::new(),
            keylist_pos: 0,
        }
    }
}

} // verus!
