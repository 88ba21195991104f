//! The Sequoia calls behind signing and encryption: policies, valid
//! certificates, secret keys, and the writer stack of a message.

use vstd::prelude::*;

use std::io::Write;

use sequoia_openpgp::Cert;

use crate::keyring::{cert_has_secret, cert_key_validity, cert_keys, cert_subkeys, cert_tsk_serialized, cert_userids};
use sequoia_openpgp::cert::CertBuilder;
use sequoia_openpgp::serialize::Serialize;
use sequoia_openpgp::cert::ValidCert;
use sequoia_openpgp::crypto::{KeyPair, Password};
use sequoia_openpgp::policy::StandardPolicy;
use sequoia_openpgp::serialize::stream::{Armorer, Encryptor, LiteralWriter, Message, Signer};

verus! {

/// Sequoia's standard policy.
#[verifier::external_type_specification]
#[verifier::external_body]
pub struct ExStandardPolicy<'a>(StandardPolicy<'a>);

/// A certificate checked against a policy at a reference time.
#[verifier::external_type_specification]
#[verifier::external_body]
pub struct ExValidCert<'a>(ValidCert<'a>);

/// A key with its unencrypted secret, ready to sign or decrypt.
#[verifier::external_type_specification]
#[verifier::external_body]
pub struct ExKeyPair(KeyPair);

/// A passphrase held in protected memory.
#[verifier::external_type_specification]
#[verifier::external_body]
pub struct ExPassword(Password);


/// A Sequoia operation failed; the underlying error is dropped.
pub struct SqFailure;

/// Why signing or encryption failed.
pub enum CryptoError {
    /// No certificate answers to the requested recipients.
    NoValidRecipients,
    /// No secret certificate answers to the requested signers.
    NoSigningKey,
    /// The signing certificate is not valid under the policy.
    InvalidSigningCert,
    /// The signing certificate has no usable signing key.
    NoValidSigningSubkey,
    /// The signing key is encrypted and no passphrase was obtained.
    NoPassphrase,
    /// A Sequoia operation failed.
    Sequoia,
}

/// Calls `StandardPolicy::new`.
#[verifier::external_body]
pub(crate) fn standard_policy() -> (r: StandardPolicy<'static>)
{
    StandardPolicy::new()
}

/// Calls `Cert::with_policy` at the current time; whether the certificate
/// is valid depends on the clock and is not stated. A valid certificate
/// has its primary key (the policy checks that key's self-signature).
#[verifier::external_body]
pub(crate) fn valid_cert<'a>(c: &'a Cert, policy: &'a StandardPolicy<'a>) -> (r: Option<ValidCert<'a>>)
    ensures
        r is Some ==> cert_keys(*c).len() > 0,
{
    c.with_policy(policy, None).ok()
}

/// The ASCII text `text`, byte by byte, begins `bytes`.
pub open spec fn starts_with_text(bytes: Seq<u8>, text: Seq<char>) -> bool {
    let t = vstd::utf8::encode_utf8(text);
    t.len() <= bytes.len() && bytes.subrange(0, t.len() as int) == t
}

/// `bytes` begin with a packet of tag `tag` in the new packet format: the
/// first byte is `0b1100_0000` with the tag in its low six bits.
pub open spec fn begins_with_packet_tag(bytes: Seq<u8>, tag: u8) -> bool {
    bytes.len() > 0 && bytes[0] == 0xC0 + tag
}

/// The packet tag of a public-key encrypted session key.
pub open spec fn tag_pkesk() -> u8 {
    1
}

/// The packet tag of a signature.
pub open spec fn tag_signature() -> u8 {
    2
}

/// The packet tag of a one-pass signature.
pub open spec fn tag_one_pass_sig() -> u8 {
    4
}

/// The first line of an ASCII-armored OpenPGP message.
pub open spec fn message_armor_header() -> Seq<char> {
    "-----BEGIN PGP MESSAGE-----"@
}

/// The first line of a cleartext-signed message.
pub open spec fn cleartext_header() -> Seq<char> {
    "-----BEGIN PGP SIGNED MESSAGE-----"@
}

/// Encrypts `bytes` as a literal data packet for every supported, alive,
/// unrevoked transport-encryption key of those of `certs` that are valid
/// under `policy` now (`Cert::with_policy`; the others are
/// passed over), with `Encryptor::for_recipients` and `LiteralWriter`,
/// without armor. The encryptor writes the session-key packets first, and
/// refuses to build without any recipient, so an empty list fails. Which
/// certificates are valid depends on the clock and is not stated. Nothing
/// compresses the data: all of `bytes` goes into the literal packet, which
/// is encrypted whole, so the ciphertext is longer than `bytes`.
#[verifier::external_body]
pub(crate) fn encrypt_binary(certs: &Vec<Cert>, policy: &StandardPolicy, bytes: &[u8]) -> (r: Result<Vec<u8>, SqFailure>)
    ensures
        r matches Ok(b) ==> begins_with_packet_tag(b@, tag_pkesk()) && certs@.len() > 0 && b@.len() > bytes@.len(),
{
    let valid: Vec<_> = certs.iter().filter_map(|c| c.with_policy(policy, None).ok()).collect();
    let keys = valid.iter().flat_map(|vc| vc.keys().supported().alive().revoked(false).for_transport_encryption());
    let mut out = Vec::new();
    let m = Encryptor::for_recipients(Message::new(&mut out), keys).build().map_err(|_| SqFailure)?;
    let mut lit = LiteralWriter::new(m).build().map_err(|_| SqFailure)?;
    lit.write_all(bytes).map_err(|_| SqFailure)?;
    lit.finalize().map_err(|_| SqFailure)?;
    Ok(out)
}

/// As `encrypt_binary`, inside ASCII armor (`Armorer`, of kind message):
/// the output begins with the armor header, and the armor only lengthens
/// the ciphertext.
#[verifier::external_body]
pub(crate) fn encrypt_armored(certs: &Vec<Cert>, policy: &StandardPolicy, bytes: &[u8]) -> (r: Result<Vec<u8>, SqFailure>)
    ensures
        r matches Ok(b) ==> starts_with_text(b@, message_armor_header()) && certs@.len() > 0 && b@.len()
            > bytes@.len(),
{
    let valid: Vec<_> = certs.iter().filter_map(|c| c.with_policy(policy, None).ok()).collect();
    let keys = valid.iter().flat_map(|vc| vc.keys().supported().alive().revoked(false).for_transport_encryption());
    let mut out = Vec::new();
    let armored = Armorer::new(Message::new(&mut out)).build().map_err(|_| SqFailure)?;
    let m = Encryptor::for_recipients(armored, keys).build().map_err(|_| SqFailure)?;
    let mut lit = LiteralWriter::new(m).build().map_err(|_| SqFailure)?;
    lit.write_all(bytes).map_err(|_| SqFailure)?;
    lit.finalize().map_err(|_| SqFailure)?;
    Ok(out)
}

/// Finds the signing key (`ValidCert::keys` restricted to secret, supported,
/// alive, unrevoked signing-capable keys; the first one) and tells whether
/// its secret is encrypted: `None` when there is no such key. The answer
/// depends on the certificate's reference time, so nothing is stated of it.
#[verifier::external_body]
pub(crate) fn signing_key_encrypted(vc: &ValidCert) -> (r: Option<Result<bool, SqFailure>>)
{
    vc.keys().secret().supported().alive().revoked(false).for_signing().next().map(
        |ka| ka.key().clone().parts_into_secret().map(|k| k.secret().is_encrypted()).map_err(|_| SqFailure),
    )
}

/// Turns that same signing key, whose secret is not encrypted, into a key
/// pair (`Key::into_keypair`).
#[verifier::external_body]
pub(crate) fn signing_keypair(vc: &ValidCert) -> (r: Result<KeyPair, SqFailure>)
{
    let ka = vc.keys().secret().supported().alive().revoked(false).for_signing().next().ok_or(SqFailure)?;
    ka.key().clone().parts_into_secret().and_then(|k| k.into_keypair()).map_err(|_| SqFailure)
}

/// Decrypts the secret of that same signing key with `passphrase`
/// (`Key::decrypt_secret`) and turns it into a key pair.
#[verifier::external_body]
pub(crate) fn unlocked_signing_keypair(vc: &ValidCert, passphrase: &Password) -> (r: Result<KeyPair, SqFailure>)
{
    let ka = vc.keys().secret().supported().alive().revoked(false).for_signing().next().ok_or(SqFailure)?;
    let key = ka.key().clone().parts_into_secret().map_err(|_| SqFailure)?;
    key.decrypt_secret(passphrase).and_then(|k| k.into_keypair()).map_err(|_| SqFailure)
}

/// A detached signature over `bytes` with `keypair`
/// (`Signer::new(..).detached()`): `build` writes nothing, and `finalize`
/// the signature packet, in the new packet format.
#[verifier::external_body]
pub(crate) fn sign_detached(keypair: KeyPair, bytes: &[u8]) -> (r: Result<Vec<u8>, SqFailure>)
    ensures
        r matches Ok(b) ==> begins_with_packet_tag(b@, tag_signature()),
{
    let mut out = Vec::new();
    let mut m = Signer::new(Message::new(&mut out), keypair).and_then(|s| s.detached().build()).map_err(|_| SqFailure)?;
    m.write_all(bytes).map_err(|_| SqFailure)?;
    m.finalize().map_err(|_| SqFailure)?;
    Ok(out)
}

/// A cleartext-signed message of `bytes` with `keypair`
/// (`Signer::new(..).cleartext()`): `build` writes the cleartext header first.
#[verifier::external_body]
pub(crate) fn sign_cleartext(keypair: KeyPair, bytes: &[u8]) -> (r: Result<Vec<u8>, SqFailure>)
    ensures
        r matches Ok(b) ==> starts_with_text(b@, cleartext_header()),
{
    let mut out = Vec::new();
    let mut m = Signer::new(Message::new(&mut out), keypair).and_then(|s| s.cleartext().build()).map_err(|_| SqFailure)?;
    m.write_all(bytes).map_err(|_| SqFailure)?;
    m.finalize().map_err(|_| SqFailure)?;
    Ok(out)
}

/// An inline-signed message of `bytes` with `keypair`: `Signer::new(..)`
/// (whose `build` writes the one-pass-signature packet first, in the new
/// packet format, at least 15 bytes) around a literal data packet
/// (`LiteralWriter`: a header of at least 8 bytes, then all of `bytes`),
/// followed by the signature packet; so the message is longer than `bytes`
/// by more than 16 bytes.
#[verifier::external_body]
pub(crate) fn sign_inline(keypair: KeyPair, bytes: &[u8]) -> (r: Result<Vec<u8>, SqFailure>)
    ensures
        r matches Ok(b) ==> begins_with_packet_tag(b@, tag_one_pass_sig()) && b@.len() > bytes@.len() + 16,
{
    let mut out = Vec::new();
    let signer = Signer::new(Message::new(&mut out), keypair).and_then(|s| s.build()).map_err(|_| SqFailure)?;
    let mut m = LiteralWriter::new(signer).build().map_err(|_| SqFailure)?;
    m.write_all(bytes).map_err(|_| SqFailure)?;
    m.finalize().map_err(|_| SqFailure)?;
    Ok(out)
}

/// Calls `Password::from` on a passphrase's text.
#[verifier::external_body]
pub(crate) fn password_from(text: &str) -> (r: Password)
{
    Password::from(text)
}

/// The key flags octet of a signing-capable key.
pub open spec fn key_flags_signing() -> u8 {
    0x02
}

/// The key flags octet of a transport-encryption key.
pub open spec fn key_flags_transport() -> u8 {
    0x04
}

/// Subkeys as `generate_cert` builds them: one signing subkey and one
/// transport-encryption subkey, in either order (the certificate is
/// canonicalized), each with the validity period `validity`.
pub open spec fn built_subkeys(subkeys: Seq<(u8, Option<u64>)>, validity: Option<u64>) -> bool {
    ||| subkeys == seq![(key_flags_signing(), validity), (key_flags_transport(), validity)]
    ||| subkeys == seq![(key_flags_transport(), validity), (key_flags_signing(), validity)]
}

/// Calls `CertBuilder::new()` with the user ID, a signing subkey and a
/// transport-encryption subkey, the validity period given in seconds (none
/// for `None`), and `generate`; the key material is random. The generated
/// certificate holds exactly that one user ID (`add_userid` of the string's
/// bytes), its keys' secret material, the validity period on the primary
/// key's self-signatures and on both subkey bindings, and the two subkeys
/// with their key flags. A period beyond `u32::MAX` seconds cannot be
/// recorded, and generation then fails.
#[verifier::external_body]
pub(crate) fn generate_cert(userid: &str, validity_secs: Option<u64>) -> (r: Result<Cert, SqFailure>)
    ensures
        r matches Ok(c) ==> {
            &&& cert_userids(c) == seq![vstd::utf8::encode_utf8(userid@)]
            &&& cert_has_secret(c)
            &&& cert_key_validity(c) == validity_secs
            &&& built_subkeys(cert_subkeys(c), validity_secs)
            &&& (validity_secs matches Some(v) ==> v <= u32::MAX)
        },
{
    CertBuilder::new().add_userid(userid).add_signing_subkey().add_transport_encryption_subkey()
        .set_validity_period(validity_secs.map(core::time::Duration::from_secs))
        .generate().map(|(cert, _rev)| cert).map_err(|_| SqFailure)
}

/// Serializes a certificate with its secret key material (`Cert::as_tsk`).
#[verifier::external_body]
pub(crate) fn tsk_to_bytes(c: &Cert) -> (r: Result<Vec<u8>, SqFailure>)
    ensures
        r matches Ok(b) ==> b@ == cert_tsk_serialized(*c),
{
    let mut out = Vec::new();
    c.as_tsk().serialize(&mut out).map(|()| out).map_err(|_| SqFailure)
}

} // verus!
