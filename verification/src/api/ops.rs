//! The crypto operations on a context: verify, encrypt, sign, decrypt and
//! key generation, with the results they record.

use vstd::prelude::*;

use sequoia_openpgp::Cert;
use sequoia_openpgp::crypto::Password;

use crate::context::SqCtx;
use crate::crypto::decrypt::{SigRecord2, sig_records2, spec_sig_record2};
use crate::crypto::encrypt::{encrypt_sq, fpr_matches_any, is_recipient, string_views};
use crate::crypto::pgp::{CryptoError, begins_with_packet_tag, tag_pkesk};
use crate::crypto::sign::{no_signer, sign_for_encryption, sign_sq, signed_form};
use crate::crypto::verify::{
    SigCheck, SigRecord, in_keyring, needs_keyring, secs_or_zero, spec_first_fpr, spec_sig_record,
    spec_upgraded, upgrade_validity, upgrades, verification_records,
};
use crate::data::SqData;
use crate::error::{
    GPG_ERR_BAD_SIGNATURE, GPG_ERR_INV_VALUE, GPG_ERR_NO_ERROR, GPG_ERR_NO_PUBKEY, GPG_ERR_NO_SECKEY,
    gpg_error, spec_gpg_error,
};
use crate::ffi_types::{
    GPGME_SIGSUM_GREEN, GPGME_SIGSUM_KEY_MISSING, GPGME_SIGSUM_RED,
    GPGME_SIGSUM_VALID, GPGME_VALIDITY_FULL, GPGME_VALIDITY_UNKNOWN, GpgmeKey, GpgmeSig,
};
use crate::keygen::{generated_for, genkey_params, genkey_sq, requested_validity, spec_genkey_expire, spec_genkey_userid};
use crate::keyring::{
    HandleTest, cert_fpr, cert_keys, collect_recipient_fprs, key_passes, keys_have_fpr, opt_view, spec_recipient_fprs,
};
use crate::text::{spec_to_uppercase, str_chars};

verus! {

// ── Signature lists ───────────────────────────────────────────────────────────

/// What `CString::new` accepts: a string without a NUL character.
pub open spec fn spec_cstring_new(s: Seq<char>) -> Option<Seq<char>> {
    if s.contains('\0') {
        None
    } else {
        Some(s)
    }
}

/// An optional fingerprint as it is handed out: dropped when it holds a NUL.
pub open spec fn spec_sig_fpr(f: Option<Seq<char>>) -> Option<Seq<char>> {
    match f {
        Some(s) => spec_cstring_new(s),
        None => None,
    }
}

/// Whether a string holds a NUL character.
fn has_nul(s: &str) -> (r: bool)
    ensures
        r == s@.contains('\0'),
{
    let chars = str_chars(s);
    let mut i: usize = 0;
    while i < chars.len()
        invariant
            chars@ == s@,
            i <= chars@.len(),
            forall|k: int| 0 <= k < i ==> chars@[k] != '\0',
        decreases chars@.len() - i,
    {
        if chars[i] == '\0' {
            assert(s@[i as int] == '\0');
            return true;
        }
        i = i + 1;
    }
    false
}

/// The fingerprint as a C string can carry it.
fn sig_fpr(f: &Option<String>) -> (r: Option<String>)
    ensures
        opt_view(r) == spec_sig_fpr(opt_view(*f)),
{
    match f {
        None => None,
        Some(s) => if has_nul(s.as_str()) {
            None
        } else {
            Some(s.clone())
        },
    }
}

/// The signature-list entry of a verification record.
pub open spec fn spec_sig_entry(s: GpgmeSig, r: SigRecord) -> bool {
    &&& opt_view(s.fpr) == spec_sig_fpr(opt_view(r.fpr))
    &&& s.summary == r.summary
    &&& s.status == r.status
    &&& s.timestamp == r.timestamp
    &&& s.exp_timestamp == r.exp_timestamp
    &&& s.validity == r.validity
}

/// The signature list of verification records, in order.
pub fn build_sig_list(records: &Vec<SigRecord>) -> (r: Vec<GpgmeSig>)
    ensures
        r@.len() == records@.len(),
        forall|i: int| 0 <= i < r@.len() ==> spec_sig_entry(#[trigger] r@[i], records@[i]),
{
    let mut out: Vec<GpgmeSig> = Vec::new();
    let mut i: usize = 0;
    while i < records.len()
        invariant
            i <= records@.len(),
            out@.len() == i,
            forall|k: int| 0 <= k < i ==> spec_sig_entry(#[trigger] out@[k], records@[k]),
        decreases records@.len() - i,
    {
        let rec = &records[i];
        out.push(
            GpgmeSig {
                summary: rec.summary,
                fpr: sig_fpr(&rec.fpr),
                status: rec.status,
                timestamp: rec.timestamp,
                exp_timestamp: rec.exp_timestamp,
                validity: rec.validity,
            },
        );
        i = i + 1;
    }
    out
}

/// The signature-list entry of a signature found while decrypting (no
/// times are reported).
pub open spec fn spec_sig_entry2(s: GpgmeSig, r: SigRecord2) -> bool {
    &&& opt_view(s.fpr) == spec_sig_fpr(opt_view(r.fpr))
    &&& s.summary == r.summary
    &&& s.status == r.status
    &&& s.timestamp == 0
    &&& s.exp_timestamp == 0
    &&& s.validity == r.validity
}

/// The signature list of the signatures found while decrypting, in order.
pub fn build_sig_list2(records: &Vec<SigRecord2>) -> (r: Vec<GpgmeSig>)
    ensures
        r@.len() == records@.len(),
        forall|i: int| 0 <= i < r@.len() ==> spec_sig_entry2(#[trigger] r@[i], records@[i]),
{
    let mut out: Vec<GpgmeSig> = Vec::new();
    let mut i: usize = 0;
    while i < records.len()
        invariant
            i <= records@.len(),
            out@.len() == i,
            forall|k: int| 0 <= k < i ==> spec_sig_entry2(#[trigger] out@[k], records@[k]),
        decreases records@.len() - i,
    {
        let rec = &records[i];
        out.push(
            GpgmeSig {
                summary: rec.summary,
                fpr: sig_fpr(&rec.fpr),
                status: rec.status,
                timestamp: 0,
                exp_timestamp: 0,
                validity: rec.validity,
            },
        );
        i = i + 1;
    }
    out
}

/// A context whose verify result now holds `sigs`, all else unchanged.
pub open spec fn with_signatures(c: SqCtx, old_c: SqCtx, sigs: Seq<GpgmeSig>) -> bool {
    &&& c.verify_result.signatures@ == sigs
    &&& c.verify_result.file_name == old_c.verify_result.file_name
    &&& c.verify_result.is_mime == old_c.verify_result.is_mime
    &&& c == SqCtx { verify_result: c.verify_result, ..old_c }
}

// ── Verify ────────────────────────────────────────────────────────────────────

/// The entry a verification reports for one signature result, given the
/// local keyring: a good signature by a key in the keyring is fully valid.
pub open spec fn spec_verify_sig(s: GpgmeSig, c: SigCheck, certs: Seq<Cert>) -> bool {
    match c {
        SigCheck::Good { fpr, created, expires } => {
            &&& opt_view(s.fpr) == spec_cstring_new(fpr@)
            &&& s.status == GPG_ERR_NO_ERROR
            &&& s.summary == (GPGME_SIGSUM_GREEN | GPGME_SIGSUM_VALID)
            &&& s.timestamp == secs_or_zero(created)
            &&& s.exp_timestamp == secs_or_zero(expires)
            &&& s.validity == (if in_keyring(certs, spec_to_uppercase(fpr@)) {
                GPGME_VALIDITY_FULL
            } else {
                GPGME_VALIDITY_UNKNOWN
            })
        },
        SigCheck::MissingKey { issuers } => {
            &&& opt_view(s.fpr) == spec_sig_fpr(spec_first_fpr(issuers@))
            &&& s.status == spec_gpg_error(GPG_ERR_NO_PUBKEY)
            &&& s.summary == GPGME_SIGSUM_KEY_MISSING
            &&& s.timestamp == 0 && s.exp_timestamp == 0
            &&& s.validity == GPGME_VALIDITY_UNKNOWN
        },
        SigCheck::Bad => {
            &&& s.fpr is None
            &&& s.status == spec_gpg_error(GPG_ERR_BAD_SIGNATURE)
            &&& s.summary == GPGME_SIGSUM_RED
            &&& s.timestamp == 0 && s.exp_timestamp == 0
            &&& s.validity == GPGME_VALIDITY_UNKNOWN
        },
    }
}

proof fn lemma_verify_entry(s: GpgmeSig, upgraded: SigRecord, rec: SigRecord, c: SigCheck, certs: Seq<Cert>)
    requires
        spec_sig_record(rec, c),
        spec_upgraded(upgraded, rec, certs),
        spec_sig_entry(s, upgraded),
    ensures
        spec_verify_sig(s, c, certs),
{
    assert((GPGME_SIGSUM_GREEN | GPGME_SIGSUM_VALID) | GPGME_SIGSUM_VALID == (GPGME_SIGSUM_GREEN
        | GPGME_SIGSUM_VALID)) by (bit_vector);
    match c {
        SigCheck::Good { fpr, created, expires } => {
            assert(upgrades(rec, certs) == in_keyring(certs, spec_to_uppercase(fpr@)));
        },
        _ => {},
    }
}

/// The signature list a verification reports for the verifier's outcome
/// against the keyring `certs`: one entry per signature result, or a
/// single bad signature when the verifier failed outright.
pub open spec fn verify_reported(sigs: Seq<GpgmeSig>, outcome: Option<Vec<SigCheck>>, certs: Seq<Cert>) -> bool {
    match outcome {
        Some(checks) => {
            &&& sigs.len() == checks@.len()
            &&& forall|i: int| 0 <= i < checks@.len() ==> spec_verify_sig(#[trigger] sigs[i], checks@[i], certs)
        },
        None => sigs.len() == 1 && spec_verify_sig(sigs[0], SigCheck::Bad, certs),
    }
}

/// What a signature entry holds, its fingerprint by its text.
pub open spec fn sig_fields(s: GpgmeSig) -> (u32, Option<Seq<char>>, u32, u64, u64, u32) {
    (s.summary, opt_view(s.fpr), s.status, s.timestamp, s.exp_timestamp, s.validity)
}

/// Verifying the same signature twice against the same keyring gives the
/// same report: two signature lists reported for one verifier outcome and
/// one keyring agree entry by entry, field by field (the signed text plays
/// no part in it).
pub proof fn law_verify_repeatable(
    sigs1: Seq<GpgmeSig>,
    sigs2: Seq<GpgmeSig>,
    outcome: Option<Vec<SigCheck>>,
    certs: Seq<Cert>,
)
    requires
        verify_reported(sigs1, outcome, certs),
        verify_reported(sigs2, outcome, certs),
    ensures
        sigs1.len() == sigs2.len(),
        forall|i: int| 0 <= i < sigs1.len() ==> sig_fields(#[trigger] sigs1[i]) == sig_fields(sigs2[i]),
{
    assert forall|i: int| 0 <= i < sigs1.len() implies sig_fields(#[trigger] sigs1[i]) == sig_fields(sigs2[i]) by {
        let c = match outcome {
            Some(checks) => checks@[i],
            None => SigCheck::Bad,
        };
        assert(spec_verify_sig(sigs1[i], c, certs));
        assert(spec_verify_sig(sigs2[i], c, certs));
    }
}

/// A good signature is reported fully valid exactly when some certificate
/// of the keyring holds a key, its primary key or any subkey, whose
/// fingerprint is the signature's upper-cased; its summary is green and
/// valid either way.
pub proof fn law_verify_full_for_keyring_key(
    sigs: Seq<GpgmeSig>,
    checks: Vec<SigCheck>,
    certs: Seq<Cert>,
    j: int,
)
    requires
        verify_reported(sigs, Some(checks), certs),
        0 <= j < checks@.len(),
        checks@[j] is Good,
    ensures
        sigs[j].summary == (GPGME_SIGSUM_GREEN | GPGME_SIGSUM_VALID),
        (sigs[j].validity == GPGME_VALIDITY_FULL) <==> exists|i: int, k: int|
            0 <= i < certs.len() && 0 <= k < cert_keys(certs[i]).len() && #[trigger] cert_keys(certs[i])[k].0
                == spec_to_uppercase(checks@[j]->Good_fpr@),
{
    let f = spec_to_uppercase(checks@[j]->Good_fpr@);
    assert(spec_verify_sig(sigs[j], checks@[j], certs));
    if in_keyring(certs, f) {
        let i = choose|i: int| 0 <= i < certs.len() && keys_have_fpr(cert_keys(#[trigger] certs[i]), f);
        let k = choose|k: int| 0 <= k < cert_keys(certs[i]).len() && key_passes(
            #[trigger] cert_keys(certs[i])[k],
            f,
            HandleTest::ExactFingerprint,
        );
        assert(cert_keys(certs[i])[k].0 == f);
    } else {
        assert forall|i: int, k: int|
            0 <= i < certs.len() && 0 <= k < cert_keys(certs[i]).len() implies #[trigger] cert_keys(certs[i])[k].0
            != f by {
            if cert_keys(certs[i])[k].0 == f {
                assert(key_passes(cert_keys(certs[i])[k], f, HandleTest::ExactFingerprint));
                assert(keys_have_fpr(cert_keys(certs[i]), f));
            }
        }
    }
}

/// Verify a detached signature: record one entry per signature result of
/// Sequoia's verifier (`None` when it failed outright, which reports a
/// single bad signature), each good signature made by a key of the local
/// keyring `certs` being fully valid. The keyring is consulted only when
/// some good signature could be upgraded. The call itself always succeeds.
pub fn gpgme_op_verify(ctx: &mut SqCtx, outcome: &Option<Vec<SigCheck>>, certs: &Vec<Cert>) -> (r: u32)
    ensures
        r == GPG_ERR_NO_ERROR,
        with_signatures(*final(ctx), *old(ctx), final(ctx).verify_result.signatures@),
        verify_reported(final(ctx).verify_result.signatures@, *outcome, certs@),
{
    let mut records = verification_records(outcome);
    let ghost initial = records@;
    if needs_keyring(&records) {
        upgrade_validity(&mut records, certs);
    } else {
        proof {
            assert forall|i: int| 0 <= i < records@.len() implies spec_upgraded(
                #[trigger] records@[i],
                initial[i],
                certs@,
            ) by {}
        }
    }
    let sigs = build_sig_list(&records);
    proof {
        match outcome {
            Some(checks) => {
                assert forall|i: int| 0 <= i < checks@.len() implies spec_verify_sig(
                    #[trigger] sigs@[i],
                    checks@[i],
                    certs@,
                ) by {
                    lemma_verify_entry(sigs@[i], records@[i], initial[i], checks@[i], certs@);
                }
            },
            None => {
                lemma_verify_entry(sigs@[0], records@[0], initial[0], SigCheck::Bad, certs@);
            },
        }
    }
    ctx.verify_result.signatures = sigs;
    GPG_ERR_NO_ERROR
}

// ── Encrypt and sign ──────────────────────────────────────────────────────────

/// The certificates of the keyring an encryption to `keys` is addressed to:
/// those whose fingerprint answers, in any case, to the fingerprint of one
/// of the keys.
pub open spec fn spec_recipients(certs: Seq<Cert>, keys: Seq<GpgmeKey>) -> Seq<Cert> {
    certs.filter(|c: Cert| is_recipient(c, spec_recipient_fprs(keys)))
}

/// Store the output of a signature or an encryption in a data object,
/// rewound: an output replaces its contents and is success; a failure is
/// the error `code` and leaves the object as it was.
pub fn store_crypto_output(res: Result<Vec<u8>, CryptoError>, out: &mut SqData, code: u32) -> (r: u32)
    ensures
        res matches Ok(b) ==> r == GPG_ERR_NO_ERROR && final(out).buf@ == b@ && final(out).pos == 0,
        res is Err ==> r == spec_gpg_error(code) && *final(out) == *old(out),
{
    match res {
        Ok(b) => {
            out.buf = b;
            out.pos = 0;
            GPG_ERR_NO_ERROR
        },
        Err(_) => gpg_error(code),
    }
}

/// Encrypt the plaintext for the keys' certificates in the keyring `certs`
/// (fingerprints compared in any case) and put the ciphertext, unarmored,
/// into `cipher`, rewound. When none answers, or Sequoia fails (in
/// particular when none of them is valid now), the call fails with
/// `GPG_ERR_NO_PUBKEY` and `cipher` is left as it was.
pub fn gpgme_op_encrypt(certs: &Vec<Cert>, keys: &Vec<GpgmeKey>, plain: &SqData, cipher: &mut SqData) -> (r: u32)
    ensures
        r == GPG_ERR_NO_ERROR || r == spec_gpg_error(GPG_ERR_NO_PUBKEY),
        spec_recipients(certs@, keys@).len() == 0 ==> r == spec_gpg_error(GPG_ERR_NO_PUBKEY),
        r == GPG_ERR_NO_ERROR ==> {
            &&& final(cipher).pos == 0
            &&& begins_with_packet_tag(final(cipher).buf@, tag_pkesk())
            &&& spec_recipients(certs@, keys@).len() > 0
            &&& final(cipher).buf@.len() > plain.buf@.len()
        },
        r != GPG_ERR_NO_ERROR ==> *final(cipher) == *old(cipher),
{
    let fprs = collect_recipient_fprs(keys);
    proof {
        assert(string_views(fprs@) == spec_recipient_fprs(keys@));
    }
    let res = encrypt_sq(certs, &fprs, plain.buf.as_slice(), false);
    store_crypto_output(res, cipher, GPG_ERR_NO_PUBKEY)
}

/// Sign the plaintext in the form `mode` selects with a secret certificate
/// answering to the context's signers (the first secret certificate when
/// there are none) and put the signed output into `sig`, rewound. When no
/// such certificate exists, or Sequoia or the passphrase callback fails,
/// the call fails with `GPG_ERR_NO_SECKEY` and `sig` is left as it was.
pub fn gpgme_op_sign<F: FnOnce(String) -> Option<Password>>(
    secret_certs: &Vec<Cert>,
    ctx: &SqCtx,
    get_passphrase: F,
    plain: &SqData,
    sig: &mut SqData,
    mode: u32,
) -> (r: u32)
    requires
        forall|hint: String| get_passphrase.requires((hint,)),
    ensures
        r == GPG_ERR_NO_ERROR || r == spec_gpg_error(GPG_ERR_NO_SECKEY),
        no_signer(secret_certs@, ctx.signer_fprs@) ==> r == spec_gpg_error(GPG_ERR_NO_SECKEY),
        r == GPG_ERR_NO_ERROR ==> {
            &&& final(sig).pos == 0
            &&& signed_form(mode, final(sig).buf@)
            &&& !no_signer(secret_certs@, ctx.signer_fprs@)
        },
        r != GPG_ERR_NO_ERROR ==> *final(sig) == *old(sig),
{
    let res = sign_sq(secret_certs, &ctx.signer_fprs, get_passphrase, plain.buf.as_slice(), mode);
    store_crypto_output(res, sig, GPG_ERR_NO_SECKEY)
}

/// The second step of signing and encrypting: given how the signature went,
/// encrypt the signed message for the keys as `gpgme_op_encrypt` does. A
/// failed signature is `GPG_ERR_NO_SECKEY`, a failed encryption
/// `GPG_ERR_NO_PUBKEY`; either leaves `cipher` as it was.
pub fn encrypt_signed(certs: &Vec<Cert>, keys: &Vec<GpgmeKey>, signed: Result<Vec<u8>, CryptoError>, cipher: &mut SqData) -> (r: u32)
    ensures
        signed is Err ==> r == spec_gpg_error(GPG_ERR_NO_SECKEY),
        signed is Ok ==> r == GPG_ERR_NO_ERROR || r == spec_gpg_error(GPG_ERR_NO_PUBKEY),
        signed is Ok && spec_recipients(certs@, keys@).len() == 0 ==> r == spec_gpg_error(GPG_ERR_NO_PUBKEY),
        r == GPG_ERR_NO_ERROR ==> {
            &&& final(cipher).pos == 0
            &&& begins_with_packet_tag(final(cipher).buf@, tag_pkesk())
            &&& spec_recipients(certs@, keys@).len() > 0
            &&& signed matches Ok(m) && final(cipher).buf@.len() > m@.len()
        },
        r != GPG_ERR_NO_ERROR ==> *final(cipher) == *old(cipher),
{
    match signed {
        Ok(message) => {
            let fprs = collect_recipient_fprs(keys);
            proof {
                assert(string_views(fprs@) == spec_recipient_fprs(keys@));
            }
            let res = encrypt_sq(certs, &fprs, message.as_slice(), false);
            store_crypto_output(res, cipher, GPG_ERR_NO_PUBKEY)
        },
        Err(_) => gpg_error(GPG_ERR_NO_SECKEY),
    }
}

/// Sign the plaintext with an inline signature, as `gpgme_op_sign` does in
/// `GPGME_SIG_MODE_NORMAL` (see `sign_for_encryption`), then encrypt the
/// signed message for the keys (see `encrypt_signed`). A failed signature is
/// `GPG_ERR_NO_SECKEY`; a signature made but not encrypted is
/// `GPG_ERR_NO_PUBKEY`; either leaves `cipher` as it was. What is sealed is
/// the signed message, which is longer than the plaintext by more than 16
/// bytes, and the ciphertext is longer still.
pub fn gpgme_op_encrypt_sign<F: FnOnce(String) -> Option<Password>>(
    certs: &Vec<Cert>,
    secret_certs: &Vec<Cert>,
    ctx: &SqCtx,
    keys: &Vec<GpgmeKey>,
    get_passphrase: F,
    plain: &SqData,
    cipher: &mut SqData,
) -> (r: u32)
    requires
        forall|hint: String| get_passphrase.requires((hint,)),
    ensures
        r == GPG_ERR_NO_ERROR || r == spec_gpg_error(GPG_ERR_NO_SECKEY) || r == spec_gpg_error(GPG_ERR_NO_PUBKEY),
        no_signer(secret_certs@, ctx.signer_fprs@) ==> r == spec_gpg_error(GPG_ERR_NO_SECKEY),
        r == spec_gpg_error(GPG_ERR_NO_PUBKEY) ==> !no_signer(secret_certs@, ctx.signer_fprs@),
        r == GPG_ERR_NO_ERROR ==> {
            &&& final(cipher).pos == 0
            &&& begins_with_packet_tag(final(cipher).buf@, tag_pkesk())
            &&& !no_signer(secret_certs@, ctx.signer_fprs@)
            &&& spec_recipients(certs@, keys@).len() > 0
            &&& final(cipher).buf@.len() > plain.buf@.len() + 16
        },
        r != GPG_ERR_NO_ERROR ==> *final(cipher) == *old(cipher),
{
    let signed = sign_for_encryption(secret_certs, &ctx.signer_fprs, get_passphrase, plain.buf.as_slice());
    proof {
        if no_signer(secret_certs@, ctx.signer_fprs@) {
            assert(signed is Err);
        }
    }
    encrypt_signed(certs, keys, signed, cipher)
}

// ── Decrypt ───────────────────────────────────────────────────────────────────

/// Put the plaintext of a decryption into `plain`, rewound; `None` (Sequoia
/// found no key that opens the message, or the message is broken) is
/// `GPG_ERR_NO_SECKEY` and leaves `plain` as it was.
pub fn gpgme_op_decrypt(plaintext: Option<Vec<u8>>, plain: &mut SqData) -> (r: u32)
    ensures
        plaintext matches Some(p) ==> r == GPG_ERR_NO_ERROR && final(plain).buf@ == p@ && final(plain).pos == 0,
        plaintext is None ==> r == spec_gpg_error(GPG_ERR_NO_SECKEY) && *final(plain) == *old(plain),
{
    match plaintext {
        Some(p) => {
            plain.buf = p;
            plain.pos = 0;
            GPG_ERR_NO_ERROR
        },
        None => gpg_error(GPG_ERR_NO_SECKEY),
    }
}

/// The entry reported for a signature found while decrypting.
pub open spec fn spec_decrypt_sig(s: GpgmeSig, c: SigCheck) -> bool {
    &&& s.timestamp == 0 && s.exp_timestamp == 0
    &&& match c {
        SigCheck::Good { fpr, .. } => {
            &&& opt_view(s.fpr) == spec_cstring_new(fpr@)
            &&& s.status == GPG_ERR_NO_ERROR
            &&& s.summary == (GPGME_SIGSUM_GREEN | GPGME_SIGSUM_VALID)
            &&& s.validity == GPGME_VALIDITY_FULL
        },
        _ => {
            &&& s.fpr is None
            &&& s.status == spec_gpg_error(GPG_ERR_BAD_SIGNATURE)
            &&& s.summary == GPGME_SIGSUM_RED
            &&& s.validity == GPGME_VALIDITY_UNKNOWN
        },
    }
}

/// Put the plaintext of a decryption into `plain`, rewound, and record one
/// entry per signature found inside, in order: a good signature is fully
/// valid, any other is bad. `None` is `GPG_ERR_NO_SECKEY` and changes
/// nothing.
pub fn gpgme_op_decrypt_verify(ctx: &mut SqCtx, outcome: Option<(Vec<u8>, Vec<SigCheck>)>, plain: &mut SqData) -> (r: u32)
    ensures
        outcome matches Some((p, checks)) ==> {
            &&& r == GPG_ERR_NO_ERROR
            &&& final(plain).buf@ == p@ && final(plain).pos == 0
            &&& with_signatures(*final(ctx), *old(ctx), final(ctx).verify_result.signatures@)
            &&& final(ctx).verify_result.signatures@.len() == checks@.len()
            &&& forall|i: int|
                0 <= i < checks@.len() ==> spec_decrypt_sig(#[trigger] final(ctx).verify_result.signatures@[i], checks@[i])
        },
        outcome is None ==> {
            &&& r == spec_gpg_error(GPG_ERR_NO_SECKEY)
            &&& *final(plain) == *old(plain)
            &&& *final(ctx) == *old(ctx)
        },
{
    match outcome {
        Some((p, checks)) => {
            let records = sig_records2(&checks);
            let sigs = build_sig_list2(&records);
            assert forall|i: int| 0 <= i < checks@.len() implies spec_decrypt_sig(#[trigger] sigs@[i], checks@[i]) by {
                assert(spec_sig_record2(records@[i], checks@[i]));
                assert(spec_sig_entry2(sigs@[i], records@[i]));
            }
            plain.buf = p;
            plain.pos = 0;
            ctx.verify_result.signatures = sigs;
            GPG_ERR_NO_ERROR
        },
        None => gpg_error(GPG_ERR_NO_SECKEY),
    }
}

// ── Key generation ────────────────────────────────────────────────────────────

/// Generate a certificate as a key-generation parameter string asks (see
/// `genkey_params`): its serialization with secret keys, for the C entry
/// point to import into the keyring (whose outcome is not reported). A
/// missing parameter string is `GPG_ERR_INV_VALUE`; a failed generation is
/// error code 1.
pub fn gpgme_op_genkey(parms: Option<&str>) -> (r: Result<Vec<u8>, u32>)
    ensures
        parms is None ==> r == Err::<Vec<u8>, u32>(spec_gpg_error(GPG_ERR_INV_VALUE)),
        parms is Some ==> (r matches Err(e) ==> e == spec_gpg_error(1)),
        parms matches Some(p) ==> (r matches Ok(b) ==> generated_for(
            b@,
            spec_genkey_userid(p@),
            requested_validity(spec_genkey_expire(p@)),
        )),
{
    let p = match parms {
        Some(p) => p,
        None => return Err(gpg_error(GPG_ERR_INV_VALUE)),
    };
    let (userid, expire) = genkey_params(p);
    match genkey_sq(userid.as_str(), expire) {
        Ok(bytes) => Ok(bytes),
        Err(_) => Err(gpg_error(1)),
    }
}

/// Generate a certificate for `userid` expiring after `expire` seconds (0:
/// never), as `gpgme_op_genkey` does.
pub fn gpgme_op_createkey(userid: Option<&str>, expire: u64) -> (r: Result<Vec<u8>, u32>)
    ensures
        userid is None ==> r == Err::<Vec<u8>, u32>(spec_gpg_error(GPG_ERR_INV_VALUE)),
        userid is Some ==> (r matches Err(e) ==> e == spec_gpg_error(1)),
        userid matches Some(u) ==> (r matches Ok(b) ==> generated_for(b@, u@, requested_validity(expire))),
{
    let u = match userid {
        Some(u) => u,
        None => return Err(gpg_error(GPG_ERR_INV_VALUE)),
    };
    match genkey_sq(u, expire) {
        Ok(bytes) => Ok(bytes),
        Err(_) => Err(gpg_error(1)),
    }
}

/// The answer of a key generation once the generated key was piped into
/// the keyring with `gpg-sq --import`: success exactly when the import
/// succeeded, else error code 1 (as for a failed generation).
pub fn gpgme_op_genkey_imported(imported: bool) -> (r: u32)
    ensures
        r == (if imported { GPG_ERR_NO_ERROR } else { spec_gpg_error(1) }),
{
    if imported {
        GPG_ERR_NO_ERROR
    } else {
        gpg_error(1)
    }
}

} // verus!
