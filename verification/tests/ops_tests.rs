use gpgme_sq::api::ctx::{
    gpgme_check_protocol, gpgme_ctx_set_engine_info, gpgme_get_keylist_mode, gpgme_get_protocol, gpgme_new,
    gpgme_set_keylist_mode, gpgme_set_protocol, gpgme_signers_add,
};
use gpgme_sq::api::ops::{
    build_sig_list, gpgme_op_decrypt, gpgme_op_genkey_imported, gpgme_op_decrypt_verify, gpgme_op_encrypt, gpgme_op_encrypt_sign,
    gpgme_op_sign, gpgme_op_verify, encrypt_signed,
};
use gpgme_sq::crypto::pgp::CryptoError;
use gpgme_sq::crypto::sign::{sign_for_encryption, sign_sq};
use sequoia_openpgp::cert::CertBuilder;
use sequoia_openpgp::crypto::Password;
use gpgme_sq::api::data::gpgme_data_new_from_mem;
use gpgme_sq::api::engine::gpgme_set_engine_info;
use gpgme_sq::api::ops::gpgme_op_createkey;
use gpgme_sq::crypto::decrypt::{recipient_matches, sig_records2};
use gpgme_sq::crypto::verify::{needs_keyring, upgrade_validity, verification_records, SigCheck, SigRecord};
use gpgme_sq::data::SqData;
use gpgme_sq::error::{gpg_error, GPG_ERR_BAD_SIGNATURE, GPG_ERR_INV_ENGINE, GPG_ERR_NO_PUBKEY, GPG_ERR_NO_SECKEY};
use gpgme_sq::ffi_types::{GPGME_SIG_MODE_CLEAR, GPGME_SIG_MODE_DETACH, GPGME_SIG_MODE_NORMAL};
use gpgme_sq::global::{default_home_dir, engine_info};
use gpgme_sq::keyring::{cert_to_key, export_certs, keyring_from_export, secret_keyring_from_export};
use sequoia_openpgp::Cert;

fn secret_certs() -> Vec<Cert> {
    let bytes = match gpgme_op_createkey(Some("Erin <erin@example.org>"), 0) {
        Ok(b) => b,
        Err(e) => panic!("key generation failed: {e:#x}"),
    };
    secret_keyring_from_export(&bytes)
}

fn good(fpr: &str) -> SigCheck {
    SigCheck::Good { fpr: fpr.to_owned(), created: Some(1_700_000_000), expires: None }
}

#[test]
fn new_context_defaults() {
    let ctx = gpgme_new(&None);
    assert_eq!(ctx.home_dir, "/etc/pacman.d/gnupg");
    assert_eq!(ctx.protocol, 0);
    assert_eq!(ctx.keylist_mode, 1);
    assert!(ctx.signer_fprs.is_empty());
    assert_eq!(ctx.import_result.considered, 1);
    assert_eq!(ctx.import_result.imported, 1);
    assert!(!ctx.import_result.imports);
    assert!(ctx.verify_result.signatures.is_empty());
    let other = gpgme_new(&Some("/srv/gnupg".to_owned()));
    assert_eq!(other.home_dir, "/srv/gnupg");
    assert_eq!(default_home_dir(&None), "/etc/pacman.d/gnupg");
    let info = engine_info();
    assert_eq!(info.file_name, "/usr/bin/gpg-sq");
    assert_eq!(info.version, "2.2.40");
    assert_eq!(info.req_version, "2.0.0");
}

#[test]
fn protocol_and_mode_settings() {
    let mut ctx = gpgme_new(&None);
    assert_eq!(gpgme_check_protocol(0), 0);
    assert_eq!(gpgme_check_protocol(3), gpg_error(GPG_ERR_INV_ENGINE));
    assert_eq!(gpgme_set_protocol(&mut ctx, 1), gpg_error(GPG_ERR_INV_ENGINE));
    assert_eq!(gpgme_get_protocol(&ctx), 0);
    assert_eq!(gpgme_set_protocol(&mut ctx, 0), 0);
    assert_eq!(gpgme_set_keylist_mode(&mut ctx, 5), 0);
    assert_eq!(gpgme_get_keylist_mode(&ctx), 5);
    assert_eq!(gpgme_ctx_set_engine_info(&mut ctx, 2, Some("/a")), gpg_error(GPG_ERR_INV_ENGINE));
    assert_eq!(ctx.home_dir, "/etc/pacman.d/gnupg");
    assert_eq!(gpgme_ctx_set_engine_info(&mut ctx, 0, None), 0);
    assert_eq!(ctx.home_dir, "/etc/pacman.d/gnupg");
    assert_eq!(gpgme_ctx_set_engine_info(&mut ctx, 0, Some("/b")), 0);
    assert_eq!(ctx.home_dir, "/b");
}

#[test]
fn verification_records_by_result_kind() {
    let recs = verification_records(&Some(vec![
        good("AB12"),
        SigCheck::MissingKey { issuers: vec![None, Some("CD34".to_owned()), Some("EF".to_owned())] },
        SigCheck::Bad,
    ]));
    assert_eq!(recs.len(), 3);
    assert_eq!(recs[0].fpr.as_deref(), Some("AB12"));
    assert_eq!(recs[0].status, 0);
    assert_eq!(recs[0].summary, 3);
    assert_eq!(recs[0].timestamp, 1_700_000_000);
    assert_eq!(recs[0].exp_timestamp, 0);
    assert_eq!(recs[0].validity, 0);
    assert_eq!(recs[1].fpr.as_deref(), Some("CD34"));
    assert_eq!(recs[1].status, gpg_error(GPG_ERR_NO_PUBKEY));
    assert_eq!(recs[1].summary, 0x80);
    assert_eq!(recs[2].fpr, None);
    assert_eq!(recs[2].status, gpg_error(GPG_ERR_BAD_SIGNATURE));
    assert_eq!(recs[2].summary, 4);
    let failed = verification_records(&None);
    assert_eq!(failed.len(), 1);
    assert_eq!(failed[0].status, gpg_error(GPG_ERR_BAD_SIGNATURE));
    assert!(needs_keyring(&recs));
    assert!(!needs_keyring(&failed));
}

#[test]
fn keyring_upgrades_validity() {
    let certs = secret_certs();
    let fpr = certs[0].fingerprint().to_hex();
    let mut recs = verification_records(&Some(vec![good(&fpr.to_lowercase()), good("0000"), SigCheck::Bad]));
    upgrade_validity(&mut recs, &certs);
    assert_eq!(recs[0].validity, 4);
    assert_eq!(recs[0].summary, 3);
    assert_eq!(recs[1].validity, 0);
    assert_eq!(recs[2].validity, 0);
    assert_eq!(recs[2].summary, 4);
}

#[test]
fn verify_records_signature_list() {
    let certs = secret_certs();
    let fpr = certs[0].fingerprint().to_hex();
    let mut ctx = gpgme_new(&None);
    let outcome = Some(vec![
        good(&fpr),
        SigCheck::Good { fpr: "9999".to_owned(), created: None, expires: Some(5) },
        SigCheck::MissingKey { issuers: vec![Some("BAD\0FPR".to_owned())] },
    ]);
    assert_eq!(gpgme_op_verify(&mut ctx, &outcome, &certs), 0);
    let sigs = &ctx.verify_result.signatures;
    assert_eq!(sigs.len(), 3);
    assert_eq!(sigs[0].validity, 4);
    assert_eq!(sigs[0].fpr.as_deref(), Some(fpr.as_str()));
    assert_eq!(sigs[0].timestamp, 1_700_000_000);
    assert_eq!(sigs[1].validity, 0);
    assert_eq!(sigs[1].exp_timestamp, 5);
    assert_eq!(sigs[2].fpr, None);
    assert_eq!(sigs[2].summary, 0x80);
    assert_eq!(gpgme_op_verify(&mut ctx, &None, &certs), 0);
    assert_eq!(ctx.verify_result.signatures.len(), 1);
    assert_eq!(ctx.verify_result.signatures[0].status, gpg_error(GPG_ERR_BAD_SIGNATURE));
    assert_eq!(ctx.verify_result.signatures[0].summary, 4);
}

#[test]
fn sig_list_copies_records() {
    let recs = vec![SigRecord { exp_timestamp: 9, fpr: Some(String::new()), status: 0, summary: 1, timestamp: 8, validity: 2 }];
    let sigs = build_sig_list(&recs);
    assert_eq!(sigs.len(), 1);
    assert_eq!(sigs[0].fpr.as_deref(), Some(""));
    assert_eq!((sigs[0].exp_timestamp, sigs[0].timestamp, sigs[0].validity, sigs[0].summary), (9, 8, 2, 1));
}

#[test]
fn decrypt_sets_plaintext_or_fails() {
    let mut plain = SqData::from_mem(b"old");
    assert_eq!(gpgme_op_decrypt(None, &mut plain), gpg_error(GPG_ERR_NO_SECKEY));
    assert_eq!(plain.buf, b"old".to_vec());
    assert_eq!(gpgme_op_decrypt(Some(b"secret".to_vec()), &mut plain), 0);
    assert_eq!(plain.buf, b"secret".to_vec());
    assert_eq!(plain.pos, 0);
}

#[test]
fn decrypt_verify_reports_embedded_signatures() {
    let mut ctx = gpgme_new(&None);
    let mut plain = SqData::new();
    assert_eq!(gpgme_op_decrypt_verify(&mut ctx, None, &mut plain), gpg_error(GPG_ERR_NO_SECKEY));
    assert!(ctx.verify_result.signatures.is_empty());
    let checks = vec![good("AAAA"), SigCheck::MissingKey { issuers: vec![Some("BBBB".to_owned())] }];
    assert_eq!(gpgme_op_decrypt_verify(&mut ctx, Some((b"msg".to_vec(), checks)), &mut plain), 0);
    assert_eq!(plain.buf, b"msg".to_vec());
    let sigs = &ctx.verify_result.signatures;
    assert_eq!(sigs.len(), 2);
    assert_eq!(sigs[0].validity, 4);
    assert_eq!(sigs[0].timestamp, 0);
    assert_eq!(sigs[0].fpr.as_deref(), Some("AAAA"));
    assert_eq!(sigs[1].fpr, None);
    assert_eq!(sigs[1].status, gpg_error(GPG_ERR_BAD_SIGNATURE));
    let recs2 = sig_records2(&vec![SigCheck::Bad]);
    assert_eq!(recs2[0].summary, 4);
}

#[test]
fn recipient_matching() {
    let f = "AAAABBBB".to_owned();
    let k = "BBBB".to_owned();
    assert!(recipient_matches(None, &f, &k));
    assert!(recipient_matches(Some(&f), &f, &k));
    assert!(recipient_matches(Some(&k), &f, &k));
    assert!(!recipient_matches(Some(&"CCCC".to_owned()), &f, &k));
}

#[test]
fn encrypt_for_keyring_recipients() {
    let tsks = secret_certs();
    let certs = keyring_from_export(&export_certs(&tsks, ""));
    let key = cert_to_key(&certs[0]);
    let plain = gpgme_data_new_from_mem(b"attack at dawn");
    let mut cipher = SqData::from_mem(b"prev");
    cipher.pos = 3;
    assert_eq!(gpgme_op_encrypt(&certs, &vec![key], &plain, &mut cipher), 0);
    assert_eq!(cipher.pos, 0);
    assert!(cipher.buf.len() > 14);
    assert!(!cipher.buf.windows(6).any(|w| w == b"attack"));
    let mut untouched = SqData::from_mem(b"prev");
    assert_eq!(gpgme_op_encrypt(&certs, &vec![], &plain, &mut untouched), gpg_error(GPG_ERR_NO_PUBKEY));
    assert_eq!(untouched.buf, b"prev".to_vec());
}

#[test]
fn sign_in_each_mode() {
    let tsks = secret_certs();
    let ctx = gpgme_new(&None);
    let plain = gpgme_data_new_from_mem(b"hello pacman\n");
    let mut asked = false;
    let mut clear = SqData::new();
    assert_eq!(gpgme_op_sign(&tsks, &ctx, |_| { asked = true; None }, &plain, &mut clear, GPGME_SIG_MODE_CLEAR), 0);
    assert!(!asked);
    assert!(clear.buf.starts_with(b"-----BEGIN PGP SIGNED MESSAGE-----"));
    let mut detached = SqData::new();
    assert_eq!(gpgme_op_sign(&tsks, &ctx, |_| None, &plain, &mut detached, GPGME_SIG_MODE_DETACH), 0);
    assert!(!detached.buf.is_empty());
    let mut inline = SqData::new();
    assert_eq!(gpgme_op_sign(&tsks, &ctx, |_| None, &plain, &mut inline, GPGME_SIG_MODE_NORMAL), 0);
    assert!(inline.buf.len() > detached.buf.len());
    let mut none = SqData::from_mem(b"x");
    assert_eq!(gpgme_op_sign(&vec![], &ctx, |_| None, &plain, &mut none, 0), gpg_error(GPG_ERR_NO_SECKEY));
    assert_eq!(none.buf, b"x".to_vec());
}

#[test]
fn sign_with_unknown_signer_fails() {
    let tsks = secret_certs();
    let mut ctx = gpgme_new(&None);
    let mut other = cert_to_key(&tsks[0]);
    other.fpr = Some("0123456789ABCDEF".to_owned());
    assert_eq!(gpgme_signers_add(&mut ctx, &other), 0);
    let plain = gpgme_data_new_from_mem(b"m");
    let mut sig = SqData::new();
    assert_eq!(gpgme_op_sign(&tsks, &ctx, |_| None, &plain, &mut sig, 0), gpg_error(GPG_ERR_NO_SECKEY));
    assert!(sig.buf.is_empty());
}

#[test]
fn encrypt_sign_signs_then_encrypts() {
    let tsks = secret_certs();
    let certs = keyring_from_export(&export_certs(&tsks, ""));
    let ctx = gpgme_new(&None);
    let key = cert_to_key(&certs[0]);
    let plain = gpgme_data_new_from_mem(b"payload");
    let mut cipher = SqData::new();
    assert_eq!(gpgme_op_encrypt_sign(&certs, &tsks, &ctx, &vec![key], |_| None, &plain, &mut cipher), 0);
    assert!(!cipher.buf.is_empty());
    let mut failed = SqData::new();
    assert_eq!(
        gpgme_op_encrypt_sign(&certs, &vec![], &ctx, &vec![], |_| None, &plain, &mut failed),
        gpg_error(GPG_ERR_NO_SECKEY)
    );
    assert_eq!(
        gpgme_op_encrypt_sign(&certs, &tsks, &ctx, &vec![], |_| None, &plain, &mut failed),
        gpg_error(GPG_ERR_NO_PUBKEY)
    );
    assert!(failed.buf.is_empty());
}

#[test]
fn new_context_after_set_engine_info() {
    let mut global: Option<String> = None;
    assert_eq!(gpgme_set_engine_info(&mut global, 0, Some("/var/lib/gnupg")), 0);
    assert_eq!(gpgme_new(&global).home_dir, "/var/lib/gnupg");
    assert_eq!(gpgme_set_engine_info(&mut global, 5, Some("/elsewhere")), gpg_error(GPG_ERR_INV_ENGINE));
    assert_eq!(gpgme_new(&global).home_dir, "/var/lib/gnupg");
}

#[test]
fn encrypt_matches_recipients_in_any_case() {
    let tsks = secret_certs();
    let certs = keyring_from_export(&export_certs(&tsks, ""));
    let mut key = cert_to_key(&certs[0]);
    key.fpr = key.fpr.map(|f| f.to_lowercase());
    let plain = gpgme_data_new_from_mem(b"case");
    let mut cipher = SqData::new();
    assert_eq!(gpgme_op_encrypt(&certs, &vec![key], &plain, &mut cipher), 0);
    assert_eq!(cipher.buf[0], 0xC1);
    let mut by_keyid = cert_to_key(&certs[0]);
    by_keyid.fpr = Some(certs[0].keyid().to_hex().to_lowercase());
    let mut cipher2 = SqData::new();
    assert_eq!(gpgme_op_encrypt(&certs, &vec![by_keyid], &plain, &mut cipher2), 0);
    assert_eq!(cipher2.buf[0], 0xC1);
}

#[test]
fn genkey_import_outcome() {
    assert_eq!(gpgme_op_genkey_imported(true), 0);
    assert_eq!(gpgme_op_genkey_imported(false), gpg_error(1));
}

#[test]
fn signed_output_forms() {
    let tsks = secret_certs();
    let ctx = gpgme_new(&None);
    let plain = gpgme_data_new_from_mem(b"form\n");
    let mut detached = SqData::new();
    assert_eq!(gpgme_op_sign(&tsks, &ctx, |_| None, &plain, &mut detached, GPGME_SIG_MODE_DETACH), 0);
    assert_eq!(detached.buf[0], 0xC2);
    let mut inline = SqData::new();
    assert_eq!(gpgme_op_sign(&tsks, &ctx, |_| None, &plain, &mut inline, GPGME_SIG_MODE_NORMAL), 0);
    assert_eq!(inline.buf[0], 0xC4);
    let mut other_mode = SqData::new();
    assert_eq!(gpgme_op_sign(&tsks, &ctx, |_| None, &plain, &mut other_mode, 7), 0);
    assert_eq!(other_mode.buf[0], 0xC4);
}

#[test]
fn signing_for_encryption_is_inline() {
    let tsks = secret_certs();
    let signed = sign_for_encryption(&tsks, &vec![], |_| None, b"inner").ok().unwrap();
    assert_eq!(signed[0], 0xC4);
    assert!(matches!(sign_for_encryption(&vec![], &vec![], |_| None, b"inner"), Err(CryptoError::NoSigningKey)));
}

#[test]
fn encrypt_signed_reports_the_failing_step() {
    let tsks = secret_certs();
    let certs = keyring_from_export(&export_certs(&tsks, ""));
    let key = cert_to_key(&certs[0]);
    let mut cipher = SqData::from_mem(b"old");
    assert_eq!(encrypt_signed(&certs, &vec![], Err(CryptoError::NoPassphrase), &mut cipher), gpg_error(GPG_ERR_NO_SECKEY));
    assert_eq!(encrypt_signed(&certs, &vec![], Ok(b"m".to_vec()), &mut cipher), gpg_error(GPG_ERR_NO_PUBKEY));
    assert_eq!(cipher.buf, b"old".to_vec());
    assert_eq!(encrypt_signed(&certs, &vec![key], Ok(b"m".to_vec()), &mut cipher), 0);
    assert_eq!(cipher.buf[0], 0xC1);
    assert_eq!(cipher.pos, 0);
}

#[test]
fn encrypted_signing_key_asks_for_passphrase_with_hint() {
    let (cert, _rev) = CertBuilder::new()
        .add_userid("Frank <frank@example.org>")
        .add_signing_subkey()
        .set_password(Some(Password::from("secret")))
        .generate()
        .unwrap();
    let tsks = vec![cert];
    let mut hints: Vec<String> = Vec::new();
    let refused = sign_sq(&tsks, &vec![], |h| { hints.push(h); None }, b"text", GPGME_SIG_MODE_DETACH);
    assert!(matches!(refused, Err(CryptoError::NoPassphrase)));
    assert_eq!(hints, vec!["Frank <frank@example.org>".to_owned()]);
    let signed = sign_sq(&tsks, &vec![], |_| Some(Password::from("secret")), b"text", GPGME_SIG_MODE_DETACH);
    assert_eq!(signed.ok().unwrap()[0], 0xC2);
    let wrong = sign_sq(&tsks, &vec![], |_| Some(Password::from("wrong")), b"text", GPGME_SIG_MODE_DETACH);
    assert!(matches!(wrong, Err(CryptoError::Sequoia)));
}

#[test]
fn verifying_twice_gives_the_same_report() {
    let certs = keyring_from_export(&export_certs(&secret_certs(), ""));
    let fpr = certs[0].fingerprint().to_hex();
    let outcome = Some(vec![good(&fpr), SigCheck::Bad]);
    let mut first = gpgme_new(&None);
    let mut second = gpgme_new(&None);
    assert_eq!(gpgme_op_verify(&mut first, &outcome, &certs), 0);
    assert_eq!(gpgme_op_verify(&mut second, &outcome, &certs), 0);
    let a = &first.verify_result.signatures;
    let b = &second.verify_result.signatures;
    assert_eq!(a.len(), b.len());
    for (x, y) in a.iter().zip(b.iter()) {
        assert_eq!((x.summary, &x.fpr, x.status, x.timestamp, x.exp_timestamp, x.validity),
                   (y.summary, &y.fpr, y.status, y.timestamp, y.exp_timestamp, y.validity));
    }
}
