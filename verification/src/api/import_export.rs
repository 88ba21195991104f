//! Key import (the results recorded on the context) and key export.

use vstd::prelude::*;

use sequoia_openpgp::Cert;

use crate::context::SqCtx;
use crate::data::SqData;
use crate::error::{GPG_ERR_INV_VALUE, GPG_ERR_NO_ERROR, gpg_error, spec_gpg_error};
use crate::ffi_types::{GpgmeImportResult, GpgmeKey};
use crate::keyring::{export_certs, opt_view, spec_export_selection, spec_serialize_all};

verus! {

/// The import result recorded after an import: the fixed report of one key
/// considered and imported (the outcome of `gpg-sq` is not parsed), with
/// the status entry attached; all else as it was.
pub open spec fn import_recorded(new: GpgmeImportResult, old: GpgmeImportResult) -> bool {
    new == GpgmeImportResult { considered: 1, imported: 1, imports: true, ..old }
}

/// What an import leaves on the context besides its results.
pub open spec fn import_keeps(c: SqCtx, old_c: SqCtx) -> bool {
    &&& c.home_dir == old_c.home_dir
    &&& c.protocol == old_c.protocol
    &&& c.keylist_mode == old_c.keylist_mode
    &&& c.keylist_certs@ == old_c.keylist_certs@
    &&& c.keylist_pos == old_c.keylist_pos
    &&& c.signer_fprs@ == old_c.signer_fprs@
    &&& c.import_status.fpr == old_c.import_status.fpr
    &&& c.import_status.error == old_c.import_status.error
    &&& c.import_status.status == old_c.import_status.status
}

fn record_import(ctx: &mut SqCtx)
    ensures
        import_recorded(final(ctx).import_result, old(ctx).import_result),
        final(ctx).import_status.result == GPG_ERR_NO_ERROR,
        import_keeps(*final(ctx), *old(ctx)),
{
    ctx.import_result.considered = 1;
    ctx.import_result.imported = 1;
    ctx.import_result.imports = true;
    ctx.import_status.result = GPG_ERR_NO_ERROR;
}

/// Import key material into the keyring (the C entry point pipes the data
/// object into `gpg-sq --import`): the import result reports one key
/// considered and imported, whatever `gpg-sq` made of it, and the call
/// always succeeds.
pub fn gpgme_op_import(ctx: &mut SqCtx) -> (r: u32)
    ensures
        r == GPG_ERR_NO_ERROR,
        import_recorded(final(ctx).import_result, old(ctx).import_result),
        final(ctx).import_status.result == GPG_ERR_NO_ERROR,
        import_keeps(*final(ctx), *old(ctx)),
{
    record_import(ctx);
    GPG_ERR_NO_ERROR
}

/// The handle a key is fetched from the key servers by: its primary
/// subkey's fingerprint, else that subkey's key ID.
pub open spec fn spec_import_handle(k: GpgmeKey) -> Option<Seq<char>> {
    match k.subkeys {
        None => None,
        Some(sk) => match opt_view(sk.fpr) {
            Some(f) => Some(f),
            None => opt_view(sk.keyid),
        },
    }
}

/// The handle of one key.
fn import_handle(k: &GpgmeKey) -> (r: Option<String>)
    ensures
        opt_view(r) == spec_import_handle(*k),
{
    match &k.subkeys {
        None => None,
        Some(sk) => match &sk.fpr {
            Some(f) => Some(f.clone()),
            None => match &sk.keyid {
                Some(id) => Some(id.clone()),
                None => None,
            },
        },
    }
}

/// Import keys from a (null-terminated) key list by receiving them from
/// the key servers. As in the C entry point, only the first key is
/// fetched: without it, or when it has no primary subkey carrying a
/// fingerprint or key ID, the call is `GPG_ERR_INV_VALUE` and changes
/// nothing. Otherwise the result is the handle to pass to
/// `gpg-sq --recv-keys`, whatever the later keys hold, and the import is
/// recorded as always succeeding.
pub fn gpgme_op_import_keys(ctx: &mut SqCtx, keys: &Vec<GpgmeKey>) -> (r: Result<String, u32>)
    ensures
        r is Ok <==> keys@.len() > 0 && spec_import_handle(keys@[0]) is Some,
        r is Err ==> r == Err::<String, u32>(spec_gpg_error(GPG_ERR_INV_VALUE)) && *final(ctx) == *old(ctx),
        r matches Ok(h) ==> {
            &&& Some(h@) == spec_import_handle(keys@[0])
            &&& import_recorded(final(ctx).import_result, old(ctx).import_result)
            &&& final(ctx).import_status.result == GPG_ERR_NO_ERROR
            &&& import_keeps(*final(ctx), *old(ctx))
        },
{
    if keys.len() == 0 {
        return Err(gpg_error(GPG_ERR_INV_VALUE));
    }
    match import_handle(&keys[0]) {
        None => Err(gpg_error(GPG_ERR_INV_VALUE)),
        Some(h) => {
            record_import(ctx);
            Ok(h)
        },
    }
}

/// Export the keyring's certificates selected by `pattern` (all of them for
/// an empty pattern, else those whose fingerprint contains the upper-cased
/// pattern) into the data object, replacing its contents and rewinding it.
pub fn gpgme_op_export(certs: &Vec<Cert>, pattern: &str, keydata: &mut SqData) -> (r: u32)
    ensures
        r == GPG_ERR_NO_ERROR,
        final(keydata).buf@ == spec_serialize_all(spec_export_selection(certs@, pattern@)),
        final(keydata).pos == 0,
{
    keydata.buf = export_certs(certs, pattern);
    keydata.pos = 0;
    GPG_ERR_NO_ERROR
}

} // verus!
