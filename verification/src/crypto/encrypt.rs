//! Public-key encryption: choosing the recipient certificates.

use vstd::prelude::*;

use sequoia_openpgp::Cert;

use crate::crypto::pgp::{
    CryptoError, begins_with_packet_tag, encrypt_armored, encrypt_binary, message_armor_header, standard_policy,
    starts_with_text, tag_pkesk,
};
use crate::keyring::{cert_clone, cert_fpr, cert_key_handles, cert_keys};
use crate::text::{
    ascii_upper, ends_with_chars, eq_chars, is_ascii_text, spec_ends_with, spec_to_uppercase, str_chars, to_uppercase,
};

verus! {

/// A certificate fingerprint answers to a requested fingerprint when they
/// are equal or the request is a suffix of it (a key ID, say).
pub open spec fn fpr_matches(fpr: Seq<char>, wanted: Seq<char>) -> bool {
    fpr == wanted || spec_ends_with(fpr, wanted)
}

/// A certificate fingerprint answers to one of the requested fingerprints.
pub open spec fn fpr_matches_any(fpr: Seq<char>, wanted: Seq<String>) -> bool {
    exists|i: int| 0 <= i < wanted.len() && fpr_matches(fpr, #[trigger] wanted[i]@)
}

/// A fingerprint answers to one of the requested fingerprints.
pub open spec fn fpr_matches_seq(fpr: Seq<char>, wanted: Seq<Seq<char>>) -> bool {
    exists|i: int| 0 <= i < wanted.len() && fpr_matches(fpr, #[trigger] wanted[i])
}

/// Strings by their characters.
pub open spec fn string_views(v: Seq<String>) -> Seq<Seq<char>> {
    v.map_values(|s: String| s@)
}

/// A requested fingerprint upper-cased: ASCII text letter by letter, any
/// other text by the Unicode mapping of `str::to_uppercase`.
pub open spec fn request_upper(s: Seq<char>) -> Seq<char> {
    if is_ascii_text(s) {
        ascii_upper(s)
    } else {
        spec_to_uppercase(s)
    }
}

/// Each string upper-cased.
pub open spec fn upper_all(v: Seq<Seq<char>>) -> Seq<Seq<char>> {
    v.map_values(|s: Seq<char>| request_upper(s))
}

/// A certificate an encryption to `wanted` is addressed to: its fingerprint
/// answers to one of the requests, compared as upper-case hex (so in any case).
pub open spec fn is_recipient(c: Cert, wanted: Seq<Seq<char>>) -> bool {
    fpr_matches_seq(cert_fpr(c), upper_all(wanted))
}

proof fn lemma_matches_any_view(fprs: Seq<String>, wanted: Seq<Seq<char>>)
    requires
        string_views(fprs) == wanted,
    ensures
        (|c: Cert| fpr_matches_any(cert_fpr(c), fprs)) =~= (|c: Cert| fpr_matches_seq(cert_fpr(c), wanted)),
{
    assert forall|c: Cert| fpr_matches_any(cert_fpr(c), fprs) == fpr_matches_seq(cert_fpr(c), wanted) by {
        if fpr_matches_any(cert_fpr(c), fprs) {
            let i = choose|i: int| 0 <= i < fprs.len() && fpr_matches(cert_fpr(c), #[trigger] fprs[i]@);
            assert(wanted[i] == fprs[i]@);
        }
        if fpr_matches_seq(cert_fpr(c), wanted) {
            let i = choose|i: int| 0 <= i < wanted.len() && fpr_matches(cert_fpr(c), #[trigger] wanted[i]);
            assert(wanted[i] == fprs[i]@);
        }
    }
}

/// Each requested fingerprint upper-cased.
fn uppercase_all(v: &Vec<String>) -> (r: Vec<String>)
    ensures
        string_views(r@) == upper_all(string_views(v@)),
{
    let mut out: Vec<String> = Vec::new();
    let mut i: usize = 0;
    while i < v.len()
        invariant
            i <= v@.len(),
            out@.len() == i,
            forall|k: int| 0 <= k < i ==> #[trigger] out@[k]@ == request_upper(v@[k]@),
        decreases v@.len() - i,
    {
        out.push(to_uppercase(v[i].as_str()));
        i = i + 1;
    }
    assert(string_views(out@) =~= upper_all(string_views(v@)));
    out
}

/// Whether the primary fingerprint of `c` answers to one of `wanted`.
pub fn cert_answers_to(c: &Cert, wanted: &Vec<String>) -> (r: bool)
    ensures
        r == fpr_matches_any(cert_fpr(*c), wanted@),
{
    let handles = cert_key_handles(c);
    let fpr = str_chars(handles[0].0.as_str());
    assert((handles@[0].0@, handles@[0].1@) == cert_keys(*c)[0]);
    let mut i: usize = 0;
    while i < wanted.len()
        invariant
            fpr@ == cert_fpr(*c),
            i <= wanted@.len(),
            forall|k: int| 0 <= k < i ==> !fpr_matches(fpr@, #[trigger] wanted@[k]@),
        decreases wanted@.len() - i,
    {
        let w = str_chars(wanted[i].as_str());
        if eq_chars(&fpr, &w) || ends_with_chars(&fpr, &w) {
            return true;
        }
        i = i + 1;
    }
    false
}

/// The certificates an encryption to `recipient_fprs` is addressed to, in
/// keyring order: those whose fingerprint answers to one of the requests.
pub fn select_recipients(certs: &Vec<Cert>, recipient_fprs: &Vec<String>) -> (r: Vec<Cert>)
    ensures
        r@ == certs@.filter(|c: Cert| fpr_matches_any(cert_fpr(c), recipient_fprs@)),
{
    let ghost pred = |c: Cert| fpr_matches_any(cert_fpr(c), recipient_fprs@);
    let mut out: Vec<Cert> = Vec::new();
    let mut i: usize = 0;
    while i < certs.len()
        invariant
            pred == (|c: Cert| fpr_matches_any(cert_fpr(c), recipient_fprs@)),
            i <= certs@.len(),
            out@ == certs@.take(i as int).filter(pred),
        decreases certs@.len() - i,
    {
        let c = &certs[i];
        if cert_answers_to(c, recipient_fprs) {
            out.push(cert_clone(c));
        }
        proof {
            reveal_with_fuel(Seq::filter, 1);
            assert(certs@.take(i + 1).drop_last() =~= certs@.take(i as int));
        }
        i = i + 1;
    }
    assert(certs@.take(certs@.len() as int) =~= certs@);
    out
}

/// The certificates among `certs` an encryption to `recipient_fprs` is
/// addressed to: those whose fingerprint answers to a request in any case.
pub open spec fn requested_recipients(certs: Seq<Cert>, recipient_fprs: Seq<String>) -> Seq<Cert> {
    certs.filter(|c: Cert| is_recipient(c, string_views(recipient_fprs)))
}

/// Encrypt `plaintext` for the certificates among `certs` whose fingerprint
/// answers to one of `recipient_fprs` (exactly or as a suffix, hex compared
/// case-insensitively), ASCII-armored when `armor` is set.
///
/// Exactly those certificates, in keyring order, are handed to Sequoia,
/// which encrypts to the valid ones; none answering is `NoValidRecipients`,
/// and only then. Whether any is valid now, and the ciphertext beyond its
/// first packet or armor line, come from Sequoia (`Sequoia` on failure).
/// The whole plaintext is sealed, uncompressed, so the ciphertext is longer.
pub fn encrypt_sq(certs: &Vec<Cert>, recipient_fprs: &Vec<String>, plaintext: &[u8], armor: bool) -> (r: Result<Vec<u8>, CryptoError>)
    ensures
        (r == Err::<Vec<u8>, CryptoError>(CryptoError::NoValidRecipients)) <==> requested_recipients(
            certs@,
            recipient_fprs@,
        ).len() == 0,
        r matches Err(e) ==> e is NoValidRecipients || e is Sequoia,
        r matches Ok(b) ==> (if armor {
            starts_with_text(b@, message_armor_header())
        } else {
            begins_with_packet_tag(b@, tag_pkesk())
        }),
        r matches Ok(b) ==> b@.len() > plaintext@.len(),
{
    let wanted = uppercase_all(recipient_fprs);
    proof {
        lemma_matches_any_view(wanted@, upper_all(string_views(recipient_fprs@)));
    }
    let selected = select_recipients(certs, &wanted);
    assert((|c: Cert| fpr_matches_any(cert_fpr(c), wanted@)) =~= (|c: Cert|
        is_recipient(c, string_views(recipient_fprs@))));
    assert(selected@ == requested_recipients(certs@, recipient_fprs@));
    if selected.len() == 0 {
        return Err(CryptoError::NoValidRecipients);
    }
    let policy = standard_policy();
    let sealed = if armor {
        encrypt_armored(&selected, &policy, plaintext)
    } else {
        encrypt_binary(&selected, &policy, plaintext)
    };
    match sealed {
        Ok(out) => Ok(out),
        Err(_) => Err(CryptoError::Sequoia),
    }
}

/// Recipients are matched in any case: a certificate answers to a request
/// in ASCII whose upper-casing is its fingerprint, or a suffix of it (a key
/// ID, say), whatever the case of the request's letters.
pub proof fn law_recipient_any_case(c: Cert, requests: Seq<Seq<char>>, i: int)
    requires
        0 <= i < requests.len(),
        is_ascii_text(requests[i]),
        fpr_matches(cert_fpr(c), ascii_upper(requests[i])),
    ensures
        is_recipient(c, requests),
{
    assert(upper_all(requests)[i] == ascii_upper(requests[i]));
}

} // verus!
