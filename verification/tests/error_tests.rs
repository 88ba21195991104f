use gpgme_sq::api::engine::{gpgme_check_version, gpgme_engine_check_version, gpgme_set_engine_info};
use gpgme_sq::api::misc::{gpgme_get_protocol_name, io_writen_after, io_writen_next};
use gpgme_sq::error::{
    gpg_error, gpgme_err_code_from_errno, gpgme_err_code_from_syserror, gpgme_err_code_to_errno,
    gpgme_err_make_from_errno, gpgme_error_from_errno, gpgme_error_from_syserror, gpgme_strerror,
    gpgme_strerror_r, gpgme_strsource, not_impl, GPG_ERR_EOF, GPG_ERR_INV_ENGINE, GPG_ERR_NO_PUBKEY,
};

#[test]
fn gpg_error_packs_source_and_code() {
    assert_eq!(gpg_error(0), 0);
    assert_eq!(gpg_error(69), 0x0D00_0045);
    assert_eq!(gpg_error(GPG_ERR_EOF), 0x0D00_3FFF);
    assert_eq!(gpg_error(0x1_0007), 0x0D00_0007);
    assert_eq!(gpg_error(1), 0x0D00_0001);
}

#[test]
fn not_impl_is_not_implemented() {
    assert_eq!(not_impl(), gpg_error(69));
    assert_eq!(gpgme_strerror(not_impl()), "Not implemented");
}

#[test]
fn strerror_known_and_unknown_codes() {
    assert_eq!(gpgme_strerror(0), "Success");
    assert_eq!(gpgme_strerror(gpg_error(GPG_ERR_NO_PUBKEY)), "No public key");
    assert_eq!(gpgme_strerror(gpg_error(8)), "Bad signature");
    assert_eq!(gpgme_strerror(17), "No secret key");
    assert_eq!(gpgme_strerror(gpg_error(55)), "Invalid value");
    assert_eq!(gpgme_strerror(63), "Key expired");
    assert_eq!(gpgme_strerror(65), "Signature expired");
    assert_eq!(gpgme_strerror(86), "Out of memory");
    assert_eq!(gpgme_strerror(gpg_error(GPG_ERR_INV_ENGINE)), "Invalid crypto engine");
    assert_eq!(gpgme_strerror(gpg_error(GPG_ERR_EOF)), "End of file");
    assert_eq!(gpgme_strerror(9999), "Unknown error");
    assert_eq!(gpgme_strerror(0x0100_0000), "Success");
}

#[test]
fn strerror_r_truncates_and_terminates() {
    assert_eq!(gpgme_strerror_r(0, 0), None);
    assert_eq!(gpgme_strerror_r(0, 1), Some(vec![0u8]));
    assert_eq!(gpgme_strerror_r(0, 4), Some(b"Suc\0".to_vec()));
    assert_eq!(gpgme_strerror_r(0, 8), Some(b"Success\0".to_vec()));
    assert_eq!(gpgme_strerror_r(0, 100), Some(b"Success\0".to_vec()));
}

#[test]
fn strsource_is_gpgme() {
    assert_eq!(gpgme_strsource(12345), "GPGME");
}

#[test]
fn errno_conversions() {
    assert_eq!(gpgme_err_code_from_errno(22), 22);
    assert_eq!(gpgme_err_code_from_errno(-5), 0);
    assert_eq!(gpgme_err_code_to_errno(22), 22);
    assert_eq!(gpgme_err_code_to_errno(u32::MAX), -1);
    assert_eq!(gpgme_err_make_from_errno(7, 13), 13);
    assert_eq!(gpgme_error_from_errno(22), 0x0D00_0016);
    assert_eq!(gpgme_error_from_errno(-1), 0);
    assert_eq!(gpgme_err_code_from_syserror(2), 2);
    assert_eq!(gpgme_err_code_from_syserror(-2), u32::MAX);
    assert_eq!(gpgme_error_from_syserror(2), 0x0D00_0002);
}

#[test]
fn version_and_engine_checks() {
    assert_eq!(gpgme_check_version(), "1.23.2");
    assert_eq!(gpgme_engine_check_version(0, true), 0);
    assert_eq!(gpgme_engine_check_version(0, false), gpg_error(GPG_ERR_INV_ENGINE));
    assert_eq!(gpgme_engine_check_version(1, true), gpg_error(GPG_ERR_INV_ENGINE));
}

#[test]
fn set_engine_info_stores_home_for_openpgp_only() {
    let mut home: Option<String> = None;
    assert_eq!(gpgme_set_engine_info(&mut home, 1, Some("/x")), gpg_error(GPG_ERR_INV_ENGINE));
    assert_eq!(home, None);
    assert_eq!(gpgme_set_engine_info(&mut home, 0, None), 0);
    assert_eq!(home, None);
    assert_eq!(gpgme_set_engine_info(&mut home, 0, Some("/tmp/gnupg")), 0);
    assert_eq!(home.as_deref(), Some("/tmp/gnupg"));
}

#[test]
fn protocol_names() {
    assert_eq!(gpgme_get_protocol_name(0), Some("OpenPGP"));
    assert_eq!(gpgme_get_protocol_name(1), None);
}

#[test]
fn io_writen_steps() {
    assert_eq!(io_writen_next(10, 0), Some((0, 10)));
    assert_eq!(io_writen_next(10, 4), Some((4, 6)));
    assert_eq!(io_writen_next(10, 10), None);
    assert_eq!(io_writen_after(4, 6), Ok(10));
    assert_eq!(io_writen_after(4, -1), Err(-1));
    assert_eq!(io_writen_after(usize::MAX - 1, 5), Ok(usize::MAX));
}
