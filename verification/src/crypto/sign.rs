//! Message signing: choosing the signing certificate and the output form.

use vstd::prelude::*;

use sequoia_openpgp::Cert;

use sequoia_openpgp::cert::ValidCert;
use sequoia_openpgp::crypto::{KeyPair, Password};

use crate::crypto::encrypt::{cert_answers_to, fpr_matches_any};
use crate::crypto::pgp::{
    CryptoError, SqFailure, begins_with_packet_tag, cleartext_header, sign_cleartext, sign_detached, sign_inline,
    signing_key_encrypted, signing_keypair, standard_policy, starts_with_text, tag_one_pass_sig, tag_signature,
    unlocked_signing_keypair, valid_cert,
};
use crate::ffi_types::{GPGME_SIG_MODE_CLEAR, GPGME_SIG_MODE_DETACH, GPGME_SIG_MODE_NORMAL};
use crate::keyring::{cert_fpr, cert_keys, cert_userid_values, cert_userids};
use crate::text::{spec_utf8_lossy, utf8_lossy};

verus! {

/// The certificate that signs: with no requested signers the first secret
/// certificate, else the first whose fingerprint answers to a request.
pub fn select_signer(certs: &Vec<Cert>, signer_fprs: &Vec<String>) -> (r: Option<usize>)
    ensures
        signer_fprs@.len() == 0 ==> r == (if certs@.len() > 0 { Some(0usize) } else { None }),
        signer_fprs@.len() > 0 ==> match r {
            Some(i) => i < certs@.len() && fpr_matches_any(cert_fpr(certs@[i as int]), signer_fprs@)
                && forall|j: int| 0 <= j < i ==> !fpr_matches_any(cert_fpr(#[trigger] certs@[j]), signer_fprs@),
            None => forall|j: int| 0 <= j < certs@.len() ==> !fpr_matches_any(cert_fpr(#[trigger] certs@[j]), signer_fprs@),
        },
{
    if signer_fprs.len() == 0 {
        return if certs.len() > 0 { Some(0) } else { None };
    }
    let mut i: usize = 0;
    while i < certs.len()
        invariant
            i <= certs@.len(),
            forall|j: int| 0 <= j < i ==> !fpr_matches_any(cert_fpr(#[trigger] certs@[j]), signer_fprs@),
        decreases certs@.len() - i,
    {
        if cert_answers_to(&certs[i], signer_fprs) {
            return Some(i);
        }
        i = i + 1;
    }
    None
}

/// The form a signed message takes.
pub enum SignMode {
    /// A detached signature (`GPGME_SIG_MODE_DETACH`).
    Detached,
    /// A cleartext-signed message (`GPGME_SIG_MODE_CLEAR`).
    Cleartext,
    /// An inline-signed literal message (any other mode).
    Inline,
}

/// The output form a GPGME signature mode selects.
pub fn sign_mode(mode: u32) -> (r: SignMode)
    ensures
        mode == GPGME_SIG_MODE_DETACH ==> r is Detached,
        mode == GPGME_SIG_MODE_CLEAR ==> r is Cleartext,
        mode != GPGME_SIG_MODE_DETACH && mode != GPGME_SIG_MODE_CLEAR ==> r is Inline,
{
    if mode == GPGME_SIG_MODE_DETACH {
        SignMode::Detached
    } else if mode == GPGME_SIG_MODE_CLEAR {
        SignMode::Cleartext
    } else {
        SignMode::Inline
    }
}

/// The user-ID hint shown when asking for a certificate's passphrase: its
/// first user ID, decoded lossily, or the empty string.
pub open spec fn spec_passphrase_hint(c: Cert) -> Seq<char> {
    if cert_userids(c).len() > 0 {
        spec_utf8_lossy(cert_userids(c)[0])
    } else {
        Seq::empty()
    }
}

/// The user-ID hint shown when asking for a passphrase.
pub fn passphrase_hint(c: &Cert) -> (r: String)
    ensures
        r@ == spec_passphrase_hint(*c),
{
    let uids = cert_userid_values(c);
    if uids.len() > 0 {
        utf8_lossy(uids[0].as_slice())
    } else {
        String::new()
    }
}

/// The form of a signed message `bytes` in mode `mode`: a detached
/// signature begins with a signature packet, a cleartext-signed message with
/// its header line, and an inline-signed message with a one-pass-signature
/// packet.
pub open spec fn signed_form(mode: u32, bytes: Seq<u8>) -> bool {
    if mode == GPGME_SIG_MODE_DETACH {
        begins_with_packet_tag(bytes, tag_signature())
    } else if mode == GPGME_SIG_MODE_CLEAR {
        starts_with_text(bytes, cleartext_header())
    } else {
        begins_with_packet_tag(bytes, tag_one_pass_sig())
    }
}

/// Append a signed message to `output` with `keypair`, in the form `mode`
/// selects: a detached signature, a cleartext-signed message, or an inline
/// signature over a literal data packet. On failure `output` is left alone.
pub fn write_signed_output(output: &mut Vec<u8>, keypair: KeyPair, plaintext: &[u8], mode: u32) -> (r: Result<(), CryptoError>)
    ensures
        r matches Err(e) ==> e is Sequoia && final(output)@ == old(output)@,
        r is Ok ==> old(output)@.is_prefix_of(final(output)@) && final(output)@.len() > old(output)@.len()
            && signed_form(mode, final(output)@.skip(old(output)@.len() as int)),
        r is Ok && mode != GPGME_SIG_MODE_DETACH && mode != GPGME_SIG_MODE_CLEAR ==> final(output)@.len()
            > old(output)@.len() + plaintext@.len() + 16,
{
    let signed = match sign_mode(mode) {
        SignMode::Detached => sign_detached(keypair, plaintext),
        SignMode::Cleartext => sign_cleartext(keypair, plaintext),
        SignMode::Inline => sign_inline(keypair, plaintext),
    };
    let bytes = match signed {
        Ok(b) => b,
        Err(_) => return Err(CryptoError::Sequoia),
    };
    proof {
        if mode == GPGME_SIG_MODE_CLEAR {
            reveal_strlit("-----BEGIN PGP SIGNED MESSAGE-----");
            assert(vstd::utf8::encode_utf8(cleartext_header()).len() > 0);
        }
        assert(bytes@.len() > 0);
    }
    let ghost before = output@;
    output.extend_from_slice(bytes.as_slice());
    assert(output@ == before + bytes@);
    assert(output@.skip(before.len() as int) =~= bytes@);
    assert(before.is_prefix_of(output@)) by {
        assert(output@.subrange(0, before.len() as int) =~= before);
    }
    Ok(())
}

/// What is done with the signing key once it is found, given what
/// `signing_key_encrypted` reported: no usable signing key, a Sequoia
/// failure, an unencrypted key turned into a key pair, or an encrypted key
/// unlocked with the passphrase that `get_passphrase` gives for `hint`
/// (asked exactly then; no passphrase is `NoPassphrase`).
pub fn unlock_signing_key<F: FnOnce(String) -> Option<Password>>(
    vc: &ValidCert,
    found: Option<Result<bool, SqFailure>>,
    hint: String,
    get_passphrase: F,
) -> (r: Result<KeyPair, CryptoError>)
    requires
        get_passphrase.requires((hint,)),
    ensures
        r matches Err(e) ==> e is NoValidSigningSubkey || e is Sequoia || e is NoPassphrase,
        found is None ==> r == Err::<KeyPair, CryptoError>(CryptoError::NoValidSigningSubkey),
        found matches Some(Err(_)) ==> r == Err::<KeyPair, CryptoError>(CryptoError::Sequoia),
        found == Some(Ok::<bool, SqFailure>(false)) ==> (r is Ok || r == Err::<KeyPair, CryptoError>(
            CryptoError::Sequoia,
        )),
        found == Some(Ok::<bool, SqFailure>(true)) ==> {
            &&& r is Ok || r == Err::<KeyPair, CryptoError>(CryptoError::Sequoia) || r == Err::<
                KeyPair,
                CryptoError,
            >(CryptoError::NoPassphrase)
            &&& r == Err::<KeyPair, CryptoError>(CryptoError::NoPassphrase) ==> get_passphrase.ensures(
                (hint,),
                None,
            )
            &&& (forall|p: Option<Password>| get_passphrase.ensures((hint,), p) ==> p is None) ==> r == Err::<
                KeyPair,
                CryptoError,
            >(CryptoError::NoPassphrase)
        },
{
    let encrypted = match found {
        None => return Err(CryptoError::NoValidSigningSubkey),
        Some(Err(_)) => return Err(CryptoError::Sequoia),
        Some(Ok(e)) => e,
    };
    if encrypted {
        let passphrase = match get_passphrase(hint) {
            Some(p) => p,
            None => return Err(CryptoError::NoPassphrase),
        };
        match unlocked_signing_keypair(vc, &passphrase) {
            Ok(kp) => Ok(kp),
            Err(_) => Err(CryptoError::Sequoia),
        }
    } else {
        match signing_keypair(vc) {
            Ok(kp) => Ok(kp),
            Err(_) => Err(CryptoError::Sequoia),
        }
    }
}

/// No secret certificate can sign for the requested signers: there is none
/// at all, or none answers to a request.
pub open spec fn no_signer(secret_certs: Seq<Cert>, signer_fprs: Seq<String>) -> bool {
    ||| signer_fprs.len() == 0 && secret_certs.len() == 0
    ||| signer_fprs.len() > 0 && forall|j: int|
        0 <= j < secret_certs.len() ==> !fpr_matches_any(cert_fpr(#[trigger] secret_certs[j]), signer_fprs)
}

/// The secret certificate at `i` is the one that signs for the requested
/// signers: the first one when none are requested, else the first whose
/// fingerprint answers to a request.
pub open spec fn is_signer(secret_certs: Seq<Cert>, signer_fprs: Seq<String>, i: int) -> bool {
    &&& 0 <= i < secret_certs.len()
    &&& if signer_fprs.len() == 0 {
        i == 0
    } else {
        &&& fpr_matches_any(cert_fpr(secret_certs[i]), signer_fprs)
        &&& forall|j: int| 0 <= j < i ==> !fpr_matches_any(cert_fpr(#[trigger] secret_certs[j]), signer_fprs)
    }
}

/// `get_passphrase` was asked for the passphrase of the signing certificate,
/// with its hint, and gave none.
pub open spec fn passphrase_refused<F: FnOnce(String) -> Option<Password>>(
    secret_certs: Seq<Cert>,
    signer_fprs: Seq<String>,
    get_passphrase: F,
) -> bool {
    exists|i: int, hint: String|
        #![trigger is_signer(secret_certs, signer_fprs, i), get_passphrase.ensures((hint,), None)]
        is_signer(secret_certs, signer_fprs, i) && hint@ == spec_passphrase_hint(secret_certs[i])
            && get_passphrase.ensures((hint,), None)
}

/// Sign `plaintext` with a key from `secret_certs` and return the signed output.
///
/// The signing certificate is chosen by `select_signer`; there being none is
/// `NoSigningKey`, and only then. The key is unlocked by
/// `unlock_signing_key`, which asks `get_passphrase` once, with the
/// certificate's first user ID as hint, when the key's secret is encrypted;
/// `NoPassphrase` means it was asked so and gave none. Success needs the
/// selected certificate to pass the policy check (which finds its primary
/// key), and an inline-signed message holds all of `plaintext` and more than
/// 16 bytes besides. Whether the
/// certificate and its signing key are valid now, and the signature itself,
/// come from Sequoia.
pub fn sign_sq<F: FnOnce(String) -> Option<Password>>(
    secret_certs: &Vec<Cert>,
    signer_fprs: &Vec<String>,
    get_passphrase: F,
    plaintext: &[u8],
    mode: u32,
) -> (r: Result<Vec<u8>, CryptoError>)
    requires
        forall|hint: String| get_passphrase.requires((hint,)),
    ensures
        (r == Err::<Vec<u8>, CryptoError>(CryptoError::NoSigningKey)) <==> no_signer(secret_certs@, signer_fprs@),
        r == Err::<Vec<u8>, CryptoError>(CryptoError::NoPassphrase) ==> passphrase_refused(
            secret_certs@,
            signer_fprs@,
            get_passphrase,
        ),
        r matches Ok(b) ==> signed_form(mode, b@) && b@.len() > 0,
        r matches Ok(b) ==> (mode != GPGME_SIG_MODE_DETACH && mode != GPGME_SIG_MODE_CLEAR ==> b@.len()
            > plaintext@.len() + 16),
        r is Ok ==> exists|i: int|
            #![trigger is_signer(secret_certs@, signer_fprs@, i)]
            is_signer(secret_certs@, signer_fprs@, i) && cert_keys(secret_certs@[i]).len() > 0,
{
    let idx = match select_signer(secret_certs, signer_fprs) {
        Some(i) => i,
        None => return Err(CryptoError::NoSigningKey),
    };
    assert(is_signer(secret_certs@, signer_fprs@, idx as int));
    let cert = &secret_certs[idx];
    let policy = standard_policy();
    let vc = match valid_cert(cert, &policy) {
        Some(vc) => vc,
        None => return Err(CryptoError::InvalidSigningCert),
    };
    let found = signing_key_encrypted(&vc);
    let hint = passphrase_hint(cert);
    let ghost asked = hint;
    let ghost found_copy = found;
    let keypair = match unlock_signing_key(&vc, found, hint, get_passphrase) {
        Ok(kp) => kp,
        Err(e) => {
            assert(!(e is NoSigningKey));
            proof {
                if e is NoPassphrase {
                    assert(is_signer(secret_certs@, signer_fprs@, idx as int));
                    assert(asked@ == spec_passphrase_hint(secret_certs@[idx as int]));
                    if !(found_copy->0->Ok_0) {
                        assert(found_copy == Some(Ok::<bool, SqFailure>(false)));
                        assert(false);
                    }
                    assert(get_passphrase.ensures((asked,), None));
                }
            }
            return Err(e);
        },
    };
    let mut output: Vec<u8> = Vec::new();
    match write_signed_output(&mut output, keypair, plaintext, mode) {
        Ok(()) => {
            assert(output@.skip(0) =~= output@);
            Ok(output)
        },
        Err(e) => Err(e),
    }
}

/// Sign `plaintext` for an encryption: an inline signature
/// (`GPGME_SIG_MODE_NORMAL`), as `sign_sq` makes it.
pub fn sign_for_encryption<F: FnOnce(String) -> Option<Password>>(
    secret_certs: &Vec<Cert>,
    signer_fprs: &Vec<String>,
    get_passphrase: F,
    plaintext: &[u8],
) -> (r: Result<Vec<u8>, CryptoError>)
    requires
        forall|hint: String| get_passphrase.requires((hint,)),
    ensures
        (r == Err::<Vec<u8>, CryptoError>(CryptoError::NoSigningKey)) <==> no_signer(secret_certs@, signer_fprs@),
        r == Err::<Vec<u8>, CryptoError>(CryptoError::NoPassphrase) ==> passphrase_refused(
            secret_certs@,
            signer_fprs@,
            get_passphrase,
        ),
        r matches Ok(b) ==> begins_with_packet_tag(b@, tag_one_pass_sig()) && b@.len() > plaintext@.len() + 16,
{
    sign_sq(secret_certs, signer_fprs, get_passphrase, plaintext, GPGME_SIG_MODE_NORMAL)
}

} // verus!
