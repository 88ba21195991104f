//! Version checks and the engine home directory.

use vstd::prelude::*;

use crate::api::ctx::spec_protocol_check;
use crate::error::{GPG_ERR_INV_ENGINE, GPG_ERR_NO_ERROR, gpg_error, spec_gpg_error};
use crate::context::{SqCtx, is_fresh_ctx};
use crate::ffi_types::GPGME_PROTOCOL_OPENPGP;
use crate::global::spec_pacman_home;

verus! {

/// The GPGME version this library stands in for.
pub open spec fn spec_library_version() -> Seq<char> {
    "1.23.2"@
}

/// The library's version string, whatever version is required.
pub fn gpgme_check_version() -> (r: &'static str)
    ensures
        r@ == spec_library_version(),
{
    "1.23.2"
}

/// Whether the engine for `proto` is available: only `OpenPGP` is served,
/// and only when the `gpg-sq` executable is present.
pub fn gpgme_engine_check_version(proto: u32, engine_present: bool) -> (r: u32)
    ensures
        r == (if proto == GPGME_PROTOCOL_OPENPGP && engine_present {
            GPG_ERR_NO_ERROR
        } else {
            spec_gpg_error(GPG_ERR_INV_ENGINE)
        }),
{
    if proto != GPGME_PROTOCOL_OPENPGP {
        return gpg_error(GPG_ERR_INV_ENGINE);
    }
    if engine_present {
        GPG_ERR_NO_ERROR
    } else {
        gpg_error(GPG_ERR_INV_ENGINE)
    }
}

/// Set the process-wide home directory for `proto`, which new contexts
/// start from; only `OpenPGP` is served. Without a (UTF-8) home directory
/// the setting stays as it was.
pub fn gpgme_set_engine_info(global_home: &mut Option<String>, proto: u32, home_dir: Option<&str>) -> (r: u32)
    ensures
        r == spec_protocol_check(proto),
        (r == GPG_ERR_NO_ERROR && home_dir is Some) ==> (*final(global_home) matches Some(h) && h@
            == home_dir->0@),
        !(r == GPG_ERR_NO_ERROR && home_dir is Some) ==> *final(global_home) == *old(global_home),
{
    if proto != GPGME_PROTOCOL_OPENPGP {
        return gpg_error(GPG_ERR_INV_ENGINE);
    }
    match home_dir {
        Some(h) => {
            *global_home = Some(h.to_owned());
        },
        None => {},
    }
    GPG_ERR_NO_ERROR
}

/// The home directory a context starts from, given the process-wide setting.
pub open spec fn spec_start_home(global_home: Option<String>) -> Seq<char> {
    match global_home {
        Some(h) => h@,
        None => spec_pacman_home(),
    }
}

/// A context created after `gpgme_set_engine_info(proto, home)` starts in
/// `home` when the protocol is `OpenPGP` and a home is given; a refused
/// call leaves new contexts where they started before.
pub proof fn lemma_new_context_home(
    before: Option<String>,
    after: Option<String>,
    proto: u32,
    home: Option<Seq<char>>,
    r: u32,
    c: SqCtx,
)
    requires
        r == spec_protocol_check(proto),
        (r == GPG_ERR_NO_ERROR && home is Some) ==> (after matches Some(h) && h@ == home->0),
        !(r == GPG_ERR_NO_ERROR && home is Some) ==> after == before,
        is_fresh_ctx(c, spec_start_home(after)),
    ensures
        proto == GPGME_PROTOCOL_OPENPGP && home is Some ==> c.home_dir@ == home->0,
        proto != GPGME_PROTOCOL_OPENPGP || home is None ==> c.home_dir@ == spec_start_home(before),
{
}

} // verus!
