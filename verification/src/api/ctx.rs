//! Context management: creation, protocol, keylist mode, engine home, signers.

use vstd::prelude::*;

use crate::context::{SqCtx, is_fresh_ctx};
use crate::error::{GPG_ERR_INV_ENGINE, GPG_ERR_INV_VALUE, GPG_ERR_NO_ERROR, gpg_error, spec_gpg_error};
use crate::ffi_types::{GPGME_PROTOCOL_OPENPGP, GpgmeKey};
use crate::api::engine::spec_start_home;
use crate::global::default_home_dir;
use crate::keyring::{key_fpr, spec_key_fpr};

verus! {

/// A new context, using the global home directory when one is set, else
/// the pacman default.
pub fn gpgme_new(global_home: &Option<String>) -> (c: SqCtx)
    ensures
        is_fresh_ctx(c, spec_start_home(*global_home)),
{
    SqCtx::new(default_home_dir(global_home))
}

/// The answer to a request for protocol `proto`: only `OpenPGP` is served.
pub open spec fn spec_protocol_check(proto: u32) -> u32 {
    if proto != GPGME_PROTOCOL_OPENPGP {
        spec_gpg_error(GPG_ERR_INV_ENGINE)
    } else {
        GPG_ERR_NO_ERROR
    }
}

/// Check that `proto` is the `OpenPGP` protocol.
pub fn gpgme_check_protocol(proto: u32) -> (r: u32)
    ensures
        r == spec_protocol_check(proto),
{
    if proto != GPGME_PROTOCOL_OPENPGP {
        gpg_error(GPG_ERR_INV_ENGINE)
    } else {
        GPG_ERR_NO_ERROR
    }
}

/// Set the engine home directory of a context; only `OpenPGP` is served.
/// Without a (readable) home directory the context is left as it is.
pub fn gpgme_ctx_set_engine_info(ctx: &mut SqCtx, proto: u32, home_dir: Option<&str>) -> (r: u32)
    ensures
        r == spec_protocol_check(proto),
        (r == GPG_ERR_NO_ERROR && home_dir is Some) ==> final(ctx).home_dir@ == home_dir->0@,
        !(r == GPG_ERR_NO_ERROR && home_dir is Some) ==> final(ctx).home_dir == old(ctx).home_dir,
        *final(ctx) == (SqCtx { home_dir: final(ctx).home_dir, ..*old(ctx) }),
{
    if proto != GPGME_PROTOCOL_OPENPGP {
        return gpg_error(GPG_ERR_INV_ENGINE);
    }
    match home_dir {
        Some(h) => {
            ctx.home_dir = h.to_owned();
        },
        None => {},
    }
    GPG_ERR_NO_ERROR
}

/// Set the active protocol; only `OpenPGP` is accepted.
pub fn gpgme_set_protocol(ctx: &mut SqCtx, proto: u32) -> (r: u32)
    ensures
        r == spec_protocol_check(proto),
        final(ctx).protocol == (if proto == GPGME_PROTOCOL_OPENPGP { proto } else { old(ctx).protocol }),
        *final(ctx) == (SqCtx { protocol: final(ctx).protocol, ..*old(ctx) }),
{
    if proto != GPGME_PROTOCOL_OPENPGP {
        return gpg_error(GPG_ERR_INV_ENGINE);
    }
    ctx.protocol = proto;
    GPG_ERR_NO_ERROR
}

/// The active protocol of a context.
pub fn gpgme_get_protocol(ctx: &SqCtx) -> (r: u32)
    ensures
        r == ctx.protocol,
{
    ctx.protocol
}

/// The keylist mode of a context.
pub fn gpgme_get_keylist_mode(ctx: &SqCtx) -> (r: u32)
    ensures
        r == ctx.keylist_mode,
{
    ctx.keylist_mode
}

/// Set the keylist mode of a context.
pub fn gpgme_set_keylist_mode(ctx: &mut SqCtx, mode: u32) -> (r: u32)
    ensures
        r == GPG_ERR_NO_ERROR,
        *final(ctx) == (SqCtx { keylist_mode: mode, ..*old(ctx) }),
{
    ctx.keylist_mode = mode;
    GPG_ERR_NO_ERROR
}

/// Clear all registered signers.
pub fn gpgme_signers_clear(ctx: &mut SqCtx)
    ensures
        final(ctx).signer_fprs@.len() == 0,
        *final(ctx) == (SqCtx { signer_fprs: final(ctx).signer_fprs, ..*old(ctx) }),
{
    ctx.signer_fprs.clear();
}

/// Add a key's fingerprint (its own, else its primary subkey's) to the
/// signers; a key with neither is refused.
pub fn gpgme_signers_add(ctx: &mut SqCtx, key: &GpgmeKey) -> (r: u32)
    ensures
        spec_key_fpr(*key) is None ==> r == spec_gpg_error(GPG_ERR_INV_VALUE) && final(ctx).signer_fprs@
            == old(ctx).signer_fprs@,
        spec_key_fpr(*key) matches Some(f) ==> r == GPG_ERR_NO_ERROR && final(ctx).signer_fprs@.len()
            == old(ctx).signer_fprs@.len() + 1 && final(ctx).signer_fprs@.drop_last() == old(ctx).signer_fprs@
            && final(ctx).signer_fprs@.last()@ == f,
        *final(ctx) == (SqCtx { signer_fprs: final(ctx).signer_fprs, ..*old(ctx) }),
{
    match key_fpr(key) {
        Some(f) => {
            ctx.signer_fprs.push(f);
            assert(ctx.signer_fprs@.drop_last() =~= old(ctx).signer_fprs@);
            GPG_ERR_NO_ERROR
        },
        None => gpg_error(GPG_ERR_INV_VALUE),
    }
}

/// A number of signers as the C `unsigned int` it is reported as.
pub open spec fn spec_signers_count(n: nat) -> u32 {
    if n <= u32::MAX { n as u32 } else { u32::MAX }
}

/// The number of registered signers, saturated at `u32::MAX`.
pub fn gpgme_signers_count(ctx: &SqCtx) -> (r: u32)
    ensures
        r == spec_signers_count(ctx.signer_fprs@.len()),
{
    let n = ctx.signer_fprs.len();
    if n as u128 <= 0xFFFF_FFFFu128 {
        n as u32
    } else {
        0xFFFF_FFFFu32
    }
}

/// Adding a signer (by a key that has a fingerprint) raises the count by
/// one, below the saturation bound; after clearing, the count is zero.
pub proof fn lemma_signers_count(before: Seq<String>, after: Seq<String>, cleared: Seq<String>)
    requires
        after.len() == before.len() + 1,
        after.drop_last() == before,
        after.len() <= u32::MAX,
        cleared.len() == 0,
    ensures
        spec_signers_count(after.len()) == spec_signers_count(before.len()) + 1,
        spec_signers_count(cleared.len()) == 0,
{
}

} // verus!
