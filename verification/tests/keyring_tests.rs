use gpgme_sq::api::ctx::{gpgme_new, gpgme_set_keylist_mode, gpgme_signers_add, gpgme_signers_clear, gpgme_signers_count};
use gpgme_sq::api::import_export::{gpgme_op_export, gpgme_op_import, gpgme_op_import_keys};
use gpgme_sq::api::keys::{
    gpgme_get_key, gpgme_key_ref, KeyLookup, gpgme_key_unref, gpgme_op_keylist_end, gpgme_op_keylist_ext_start,
    gpgme_op_keylist_from_data_start, gpgme_op_keylist_next, gpgme_op_keylist_start,
};
use gpgme_sq::api::data::gpgme_data_new;
use gpgme_sq::api::ops::{gpgme_op_createkey, gpgme_op_genkey};
use gpgme_sq::crypto::decrypt::decrypt_candidates;
use gpgme_sq::crypto::sign::{passphrase_hint, select_signer};
use gpgme_sq::crypto::verify::certs_for_handles;
use gpgme_sq::data::SqData;
use gpgme_sq::error::{gpg_error, GPG_ERR_EOF, GPG_ERR_INV_VALUE};
use gpgme_sq::keyring::{
    cert_to_key, export_certs, find_cert_by_key_suffix, keep_secret, keyring_from_export, keyring_from_file,
    keylist_filter, passphrase_from_callback_output, secret_keyring_from_export, secret_keyring_from_file,
};
use sequoia_openpgp::Cert;

fn tsk_bytes(userid: &str) -> Vec<u8> {
    match gpgme_op_createkey(Some(userid), 0) {
        Ok(b) => b,
        Err(e) => panic!("key generation failed: {e:#x}"),
    }
}

fn secret_certs() -> Vec<Cert> {
    let mut all = tsk_bytes("Alice <alice@example.org>");
    all.extend(tsk_bytes("Bob Builder <bob@example.net>"));
    secret_keyring_from_export(&all)
}

fn public_of(certs: &Vec<Cert>) -> Vec<Cert> {
    keyring_from_export(&export_certs(certs, ""))
}

#[test]
fn generated_key_becomes_a_key_record() {
    let certs = secret_certs();
    assert_eq!(certs.len(), 2);
    let k = cert_to_key(&certs[0]);
    let fpr = certs[0].fingerprint().to_hex();
    assert_eq!(k.refs, 1);
    assert_eq!(k.protocol, 0);
    assert_eq!(k.keylist_mode, 1);
    assert_eq!(k.bitflags, 0);
    assert_eq!(k.fpr.as_deref(), Some(fpr.as_str()));
    let sk = k.subkeys.as_ref().unwrap();
    assert_eq!(sk.fpr.as_deref(), Some(fpr.as_str()));
    assert_eq!(sk.keyid.as_deref(), Some(certs[0].keyid().to_hex().as_str()));
    assert!(sk.timestamp > 0);
    let uid = k.uids.as_ref().unwrap();
    assert_eq!(uid.uid.as_deref(), Some("Alice <alice@example.org>"));
    assert_eq!(uid.name.as_deref(), Some("Alice"));
    assert_eq!(uid.email.as_deref(), Some("alice@example.org"));
    assert_eq!(uid.comment, None);
    assert_eq!(passphrase_hint(&certs[1]), "Bob Builder <bob@example.net>");
}

#[test]
fn keyring_loading_from_files_and_exports() {
    let tsks = secret_certs();
    let public_bytes = export_certs(&tsks, "");
    assert_eq!(keyring_from_file(&public_bytes).map(|v| v.len()), Some(2));
    assert!(keyring_from_file(b"").is_none());
    assert!(keyring_from_file(b"not a keyring").is_none());
    assert!(keyring_from_export(b"").is_empty());
    assert!(secret_keyring_from_file(&public_bytes).is_none());
    assert!(secret_keyring_from_export(&public_bytes).is_empty());
    assert_eq!(keep_secret(public_of(&tsks)).len(), 0);
    let tsk = tsk_bytes("Carol <carol@example.com>");
    assert_eq!(secret_keyring_from_file(&tsk).map(|v| v.len()), Some(1));
}

#[test]
fn export_selects_by_fingerprint() {
    let certs = public_of(&secret_certs());
    let all = export_certs(&certs, "");
    let fpr1 = certs[1].fingerprint().to_hex();
    let one = export_certs(&certs, &fpr1[10..30].to_lowercase());
    assert_eq!(keyring_from_export(&one).len(), 1);
    assert_eq!(keyring_from_export(&one)[0].fingerprint(), certs[1].fingerprint());
    assert!(export_certs(&certs, "not-hex").is_empty());
    assert!(all.len() > one.len());
    let mut data = SqData::from_mem(b"old");
    data.pos = 2;
    assert_eq!(gpgme_op_export(&certs, "", &mut data), 0);
    assert_eq!(data.buf, all);
    assert_eq!(data.pos, 0);
}

#[test]
fn keylist_filter_by_handle_and_user_id() {
    let certs = public_of(&secret_certs());
    assert_eq!(keylist_filter(&certs, None).len(), 2);
    assert_eq!(keylist_filter(&certs, Some("alice")).len(), 1);
    assert_eq!(keylist_filter(&certs, Some("EXAMPLE")).len(), 2);
    let keyid = certs[1].keyid().to_hex().to_lowercase();
    let found = keylist_filter(&certs, Some(&keyid[4..12]));
    assert_eq!(found.len(), 1);
    assert_eq!(found[0].fingerprint(), certs[1].fingerprint());
    assert!(keylist_filter(&certs, Some("nobody")).is_empty());
}

#[test]
fn key_lookup_by_suffix() {
    let certs = public_of(&secret_certs());
    let fpr = certs[1].fingerprint().to_hex();
    assert_eq!(find_cert_by_key_suffix(&certs, &fpr.to_lowercase()), Some(1));
    assert_eq!(find_cert_by_key_suffix(&certs, &certs[0].keyid().to_hex()), Some(0));
    assert_eq!(find_cert_by_key_suffix(&certs, "0123456789ABCDEFFEDCBA"), None);
    let mut ctx = gpgme_new(&None);
    match gpgme_get_key(&ctx, &certs, Some(&fpr[24..]), false) {
        KeyLookup::Found(key) => assert_eq!(key.fpr.as_deref(), Some(fpr.as_str())),
        _ => panic!("the key is in the keyring"),
    }
    assert!(matches!(
        gpgme_get_key(&ctx, &certs, Some("FFFFFFFFFFFFFFFFFFFFFFFF"), false),
        KeyLookup::Failed(e) if e == gpg_error(GPG_ERR_EOF)
    ));
    assert!(matches!(gpgme_get_key(&ctx, &certs, None, false), KeyLookup::Failed(e) if e == gpg_error(GPG_ERR_INV_VALUE)));
    assert_eq!(gpgme_set_keylist_mode(&mut ctx, 1 | 2), 0);
    assert!(matches!(
        gpgme_get_key(&ctx, &certs, Some("ffffffffffffffffffffffff"), false),
        KeyLookup::FetchExternal(h) if h == "ffffffffffffffffffffffff"
    ));
    assert!(matches!(
        gpgme_get_key(&ctx, &certs, Some("FFFFFFFFFFFFFFFFFFFFFFFF"), true),
        KeyLookup::Failed(e) if e == gpg_error(GPG_ERR_EOF)
    ));
    assert!(matches!(gpgme_get_key(&ctx, &certs, Some(&fpr), false), KeyLookup::Found(_)));
}

#[test]
fn key_reference_counting() {
    let certs = public_of(&secret_certs());
    let ctx = gpgme_new(&None);
    let mut key = match gpgme_get_key(&ctx, &certs, Some(&certs[0].keyid().to_hex()), false) {
        KeyLookup::Found(k) => k,
        _ => panic!("the key is in the keyring"),
    };
    gpgme_key_ref(&mut key);
    assert_eq!(key.refs, 2);
    assert!(!gpgme_key_unref(&mut key));
    assert_eq!(key.refs, 1);
    assert!(gpgme_key_unref(&mut key));
    assert_eq!(key.refs, 0);
    assert!(gpgme_key_unref(&mut key));
    assert_eq!(key.refs, 0);
    key.refs = u32::MAX;
    gpgme_key_ref(&mut key);
    assert_eq!(key.refs, u32::MAX);
}

#[test]
fn keylist_iterates_in_order_then_eof() {
    let certs = public_of(&secret_certs());
    let mut ctx = gpgme_new(&None);
    assert_eq!(gpgme_op_keylist_start(&mut ctx, &certs, None), 0);
    let first = gpgme_op_keylist_next(&mut ctx).ok().unwrap();
    let second = gpgme_op_keylist_next(&mut ctx).ok().unwrap();
    assert_eq!(first.fpr, Some(certs[0].fingerprint().to_hex()));
    assert_eq!(second.fpr, Some(certs[1].fingerprint().to_hex()));
    assert_eq!(gpgme_op_keylist_next(&mut ctx).err(), Some(gpg_error(GPG_ERR_EOF)));
    assert_eq!(gpgme_op_keylist_next(&mut ctx).err(), Some(gpg_error(GPG_ERR_EOF)));
    assert_eq!(ctx.keylist_pos, 2);
    assert_eq!(gpgme_op_keylist_end(&mut ctx), 0);
    assert_eq!(ctx.keylist_pos, 0);
    assert!(ctx.keylist_certs.is_empty());
    assert_eq!(gpgme_op_keylist_start(&mut ctx, &certs, Some("bob")), 0);
    let bob = gpgme_op_keylist_next(&mut ctx).ok().unwrap();
    assert_eq!(bob.uids.unwrap().email.as_deref(), Some("bob@example.net"));
    assert!(gpgme_op_keylist_next(&mut ctx).is_err());
    assert_eq!(gpgme_op_keylist_ext_start(&mut ctx, &certs), 0);
    assert_eq!(ctx.keylist_certs.len(), 2);
}

#[test]
fn keylist_from_data_parses_the_buffer() {
    let certs = public_of(&secret_certs());
    let data = SqData::from_vec(export_certs(&certs, ""));
    let mut ctx = gpgme_new(&Some("/tmp/h".to_owned()));
    assert_eq!(gpgme_op_keylist_from_data_start(&mut ctx, &data), 0);
    assert_eq!(ctx.keylist_certs.len(), 2);
    assert_eq!(gpgme_op_keylist_from_data_start(&mut ctx, &gpgme_data_new()), 0);
    assert!(ctx.keylist_certs.is_empty());
    assert!(gpgme_op_keylist_next(&mut ctx).is_err());
}

#[test]
fn signers_add_count_clear() {
    let certs = public_of(&secret_certs());
    let mut ctx = gpgme_new(&None);
    let key = cert_to_key(&certs[0]);
    assert_eq!(gpgme_signers_count(&ctx), 0);
    assert_eq!(gpgme_signers_add(&mut ctx, &key), 0);
    assert_eq!(gpgme_signers_count(&ctx), 1);
    assert_eq!(ctx.signer_fprs[0], certs[0].fingerprint().to_hex());
    let mut bare = cert_to_key(&certs[1]);
    bare.fpr = None;
    assert_eq!(gpgme_signers_add(&mut ctx, &bare), 0);
    assert_eq!(ctx.signer_fprs[1], certs[1].fingerprint().to_hex());
    bare.subkeys = None;
    assert_eq!(gpgme_signers_add(&mut ctx, &bare), gpg_error(GPG_ERR_INV_VALUE));
    assert_eq!(gpgme_signers_count(&ctx), 2);
    gpgme_signers_clear(&mut ctx);
    assert_eq!(gpgme_signers_count(&ctx), 0);
}

#[test]
fn import_records_results() {
    let certs = public_of(&secret_certs());
    let mut ctx = gpgme_new(&None);
    assert_eq!(ctx.import_result.considered, 1);
    assert_eq!(ctx.import_result.imported, 1);
    assert!(!ctx.import_result.imports);
    assert_eq!(gpgme_op_import(&mut ctx), 0);
    assert_eq!(ctx.import_result.considered, 1);
    assert_eq!(ctx.import_result.imported, 1);
    assert!(ctx.import_result.imports);
    let mut fresh = gpgme_new(&None);
    assert_eq!(gpgme_op_import_keys(&mut fresh, &vec![]).err(), Some(gpg_error(GPG_ERR_INV_VALUE)));
    assert!(!fresh.import_result.imports);
    let key0 = cert_to_key(&certs[0]);
    let mut key1 = cert_to_key(&certs[1]);
    key1.subkeys.as_mut().unwrap().fpr = None;
    assert_eq!(
        gpgme_op_import_keys(&mut fresh, &vec![key0, key1]).ok(),
        Some(certs[0].fingerprint().to_hex())
    );
    assert_eq!(fresh.import_result.considered, 1);
    assert_eq!(fresh.import_result.imported, 1);
    assert!(fresh.import_result.imports);
    assert_eq!(fresh.import_status.result, 0);
    let mut bad = cert_to_key(&certs[1]);
    bad.subkeys.as_mut().unwrap().fpr = None;
    bad.subkeys.as_mut().unwrap().keyid = None;
    let mut other = gpgme_new(&None);
    assert_eq!(
        gpgme_op_import_keys(&mut other, &vec![cert_to_key(&certs[0]), bad]).ok(),
        Some(certs[0].fingerprint().to_hex())
    );
    assert!(other.import_result.imports);
    let mut by_keyid = gpgme_new(&None);
    let mut first = cert_to_key(&certs[1]);
    first.subkeys.as_mut().unwrap().fpr = None;
    assert_eq!(gpgme_op_import_keys(&mut by_keyid, &vec![first]).ok(), Some(certs[1].keyid().to_hex()));
    let mut bad = cert_to_key(&certs[1]);
    bad.subkeys.as_mut().unwrap().fpr = None;
    bad.subkeys.as_mut().unwrap().keyid = None;
    let mut refused = gpgme_new(&None);
    assert_eq!(gpgme_op_import_keys(&mut refused, &vec![bad, cert_to_key(&certs[0])]).err(), Some(gpg_error(GPG_ERR_INV_VALUE)));
    assert!(!refused.import_result.imports);
}

#[test]
fn genkey_from_parameters() {
    assert_eq!(gpgme_op_genkey(None).err(), Some(gpg_error(GPG_ERR_INV_VALUE)));
    assert_eq!(gpgme_op_createkey(None, 0).err(), Some(gpg_error(GPG_ERR_INV_VALUE)));
    let bytes = gpgme_op_genkey(Some("<Name-Real>Dave</Name-Real><Name-Email>d@x.org</Name-Email><Expire-Date>86400</Expire-Date>"))
        .ok()
        .unwrap();
    let certs = secret_keyring_from_export(&bytes);
    assert_eq!(certs.len(), 1);
    assert_eq!(cert_to_key(&certs[0]).uids.unwrap().uid.as_deref(), Some("Dave <d@x.org>"));
    let policy = sequoia_openpgp::policy::StandardPolicy::new();
    let valid = certs[0].with_policy(&policy, None).unwrap();
    let day = Some(std::time::Duration::from_secs(86400));
    assert_eq!(valid.primary_key().key_validity_period(), day);
    assert_eq!(valid.keys().subkeys().count(), 2);
    assert_eq!(valid.keys().subkeys().for_signing().count(), 1);
    assert_eq!(valid.keys().subkeys().for_transport_encryption().count(), 1);
    for k in valid.keys().subkeys() {
        assert_eq!(k.key_validity_period(), day);
    }
    let forever = secret_keyring_from_export(&gpgme_op_createkey(Some("Eve"), 0).ok().unwrap());
    let valid = forever[0].with_policy(&policy, None).unwrap();
    assert_eq!(valid.primary_key().key_validity_period(), None);
    assert!(gpgme_op_createkey(Some("Eve"), 1u64 << 33).is_err());
}

#[test]
fn signer_selection_and_handles() {
    let certs = secret_certs();
    assert_eq!(select_signer(&certs, &vec![]), Some(0));
    assert_eq!(select_signer(&vec![], &vec![]), None);
    let fpr1 = certs[1].fingerprint().to_hex();
    assert_eq!(select_signer(&certs, &vec![fpr1.clone()]), Some(1));
    assert_eq!(select_signer(&certs, &vec![fpr1[24..].to_owned()]), Some(1));
    assert_eq!(select_signer(&certs, &vec!["ABCDEF".to_owned()]), None);
    let by_keyid = certs_for_handles(&certs, &vec![certs[0].keyid().to_hex(), fpr1.clone(), "00".to_owned()]);
    assert_eq!(by_keyid.len(), 2);
    assert_eq!(by_keyid[0].fingerprint(), certs[0].fingerprint());
    assert_eq!(by_keyid[1].fingerprint(), certs[1].fingerprint());
}

#[test]
fn decryption_attempt_order() {
    let certs = secret_certs();
    let anon = decrypt_candidates(&vec![None], &certs);
    let n0 = certs[0].keys().secret().count();
    let n1 = certs[1].keys().secret().count();
    assert_eq!(anon.len(), n0 + n1);
    assert_eq!(anon[0], (0, 0, 0));
    assert_eq!(anon[n0], (0, 1, 0));
    let sub = certs[1].keys().secret().nth(2).unwrap().key().keyid().to_hex();
    let one = decrypt_candidates(&vec![Some("NOPE".to_owned()), Some(sub)], &certs);
    assert_eq!(one, vec![(1, 1, 2)]);
    assert!(decrypt_candidates(&vec![], &certs).is_empty());
}

#[test]
fn passphrase_from_callback_bytes() {
    assert!(passphrase_from_callback_output(&b"pw\n".to_vec()).is_some());
    assert!(passphrase_from_callback_output(&vec![0xFE]).is_none());
}
