//! Process-global settings: the engine-info record and the default home directory.

use vstd::prelude::*;

use crate::ffi_types::{GPGME_PROTOCOL_OPENPGP, GpgmeEngineInfo};

verus! {

/// The home directory used when no global one has been set.
pub open spec fn spec_pacman_home() -> Seq<char> {
    "/etc/pacman.d/gnupg"@
}

/// Return the active global home directory, or the pacman default if none is set.
pub fn default_home_dir(global_home: &Option<String>) -> (r: String)
    ensures
        global_home matches Some(h) ==> r@ == h@,
        global_home is None ==> r@ == spec_pacman_home(),
{
    match global_home {
        Some(h) => h.clone(),
        None => "/etc/pacman.d/gnupg".to_owned(),
    }
}

/// The engine-info record returned by `gpgme_get_engine_info`.
pub fn engine_info() -> (r: GpgmeEngineInfo)
    ensures
        r.protocol == GPGME_PROTOCOL_OPENPGP,
        r.file_name@ == "/usr/bin/gpg-sq"@,
        r.version@ == "2.2.40"@,
        r.req_version@ == "2.0.0"@,
        r.home_dir is None,
{
    GpgmeEngineInfo {
        protocol: GPGME_PROTOCOL_OPENPGP,
        file_name: "/usr/bin/gpg-sq".to_owned(),
        version: "2.2.40".to_owned(),
        req_version: "2.0.0".to_owned(),
        home_dir: None,
    }
}

} // verus!
