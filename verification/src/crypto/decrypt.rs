//! Decryption: recipient matching and the records of embedded signatures.

use vstd::prelude::*;

use crate::crypto::verify::SigCheck;
use crate::error::{GPG_ERR_BAD_SIGNATURE, GPG_ERR_NO_ERROR, gpg_error, spec_gpg_error};
use crate::ffi_types::{
    GPGME_SIGSUM_GREEN, GPGME_SIGSUM_RED, GPGME_SIGSUM_VALID, GPGME_VALIDITY_FULL,
    GPGME_VALIDITY_UNKNOWN,
};
use sequoia_openpgp::Cert;

use crate::keyring::{cert_secret_key_handles, cert_secret_keys, opt_view};

verus! {

/// Internal record of a single signature encountered during decryption.
pub struct SigRecord2 {
    /// Hex fingerprint of the signing key, or `None` if unavailable.
    pub fpr: Option<String>,
    /// GPGME error code for this signature.
    pub status: u32,
    /// Bitmask of `GPGME_SIGSUM_*` flags.
    pub summary: u32,
    /// Validity level (`GPGME_VALIDITY_*`).
    pub validity: u32,
}

/// The record of one signature found while decrypting: a good signature is
/// fully valid, every failure is a bad signature.
pub open spec fn spec_sig_record2(r: SigRecord2, c: SigCheck) -> bool {
    match c {
        SigCheck::Good { fpr, created, expires } => {
            &&& opt_view(r.fpr) == Some(fpr@)
            &&& r.status == GPG_ERR_NO_ERROR
            &&& r.summary == (GPGME_SIGSUM_GREEN | GPGME_SIGSUM_VALID)
            &&& r.validity == GPGME_VALIDITY_FULL
        },
        _ => {
            &&& r.fpr is None
            &&& r.status == spec_gpg_error(GPG_ERR_BAD_SIGNATURE)
            &&& r.summary == GPGME_SIGSUM_RED
            &&& r.validity == GPGME_VALIDITY_UNKNOWN
        },
    }
}

/// The record one signature result found while decrypting becomes.
pub fn sig_record2_from_check(c: &SigCheck) -> (r: SigRecord2)
    ensures
        spec_sig_record2(r, *c),
{
    match c {
        SigCheck::Good { fpr, .. } => SigRecord2 {
            fpr: Some(fpr.clone()),
            status: GPG_ERR_NO_ERROR,
            summary: GPGME_SIGSUM_GREEN | GPGME_SIGSUM_VALID,
            validity: GPGME_VALIDITY_FULL,
        },
        _ => SigRecord2 {
            fpr: None,
            status: gpg_error(GPG_ERR_BAD_SIGNATURE),
            summary: GPGME_SIGSUM_RED,
            validity: GPGME_VALIDITY_UNKNOWN,
        },
    }
}

/// The records of all signatures found while decrypting, in order.
pub fn sig_records2(checks: &Vec<SigCheck>) -> (r: Vec<SigRecord2>)
    ensures
        r@.len() == checks@.len(),
        forall|i: int| 0 <= i < r@.len() ==> spec_sig_record2(#[trigger] r@[i], checks@[i]),
{
    let mut v: Vec<SigRecord2> = Vec::new();
    let mut i: usize = 0;
    while i < checks.len()
        invariant
            i <= checks@.len(),
            v@.len() == i,
            forall|k: int| 0 <= k < i ==> spec_sig_record2(#[trigger] v@[k], checks@[k]),
        decreases checks@.len() - i,
    {
        v.push(sig_record2_from_check(&checks[i]));
        i = i + 1;
    }
    v
}

/// Whether a key (by hex fingerprint and key ID) may open a session key
/// addressed to `recipient`: an anonymous recipient matches every key.
pub fn recipient_matches(recipient: Option<&String>, fpr: &String, keyid: &String) -> (r: bool)
    ensures
        r == match recipient {
            None => true,
            Some(rec) => rec@ == fpr@ || rec@ == keyid@,
        },
{
    match recipient {
        None => true,
        Some(rec) => *rec == *fpr || *rec == *keyid,
    }
}

/// A secret key (by fingerprint and key ID) may open a session key
/// addressed to `rec`: an anonymous recipient matches every key.
pub open spec fn key_opens(rec: Option<String>, key: (Seq<char>, Seq<char>)) -> bool {
    match rec {
        None => true,
        Some(r) => r@ == key.0 || r@ == key.1,
    }
}

/// The attempts for session key `i` with certificate `j`, over its secret
/// keys `keys` in order: those that may open it.
pub open spec fn cands_keys(i: int, j: int, rec: Option<String>, keys: Seq<(Seq<char>, Seq<char>)>) -> Seq<(int, int, int)>
    decreases keys.len(),
{
    if keys.len() == 0 {
        Seq::empty()
    } else {
        let rest = cands_keys(i, j, rec, keys.drop_last());
        if key_opens(rec, keys.last()) {
            rest.push((i, j, keys.len() - 1))
        } else {
            rest
        }
    }
}

/// The attempts for session key `i`, certificate by certificate.
pub open spec fn cands_certs(i: int, rec: Option<String>, certs: Seq<Cert>) -> Seq<(int, int, int)>
    decreases certs.len(),
{
    if certs.len() == 0 {
        Seq::empty()
    } else {
        cands_certs(i, rec, certs.drop_last()) + cands_keys(
            i,
            certs.len() - 1,
            rec,
            cert_secret_keys(certs.last()),
        )
    }
}

/// Every attempt to open a session key, in the order the decryptor makes
/// them: session key by session key (given by its recipient), then secret
/// certificate by certificate, then secret key by key, keeping the keys
/// that may open it. Each attempt is (session key, certificate, secret key).
pub open spec fn spec_decrypt_candidates(recipients: Seq<Option<String>>, certs: Seq<Cert>) -> Seq<(int, int, int)>
    decreases recipients.len(),
{
    if recipients.len() == 0 {
        Seq::empty()
    } else {
        spec_decrypt_candidates(recipients.drop_last(), certs) + cands_certs(
            recipients.len() - 1,
            recipients.last(),
            certs,
        )
    }
}

proof fn lemma_cands_keys_contains(
    i: int,
    j: int,
    rec: Option<String>,
    keys: Seq<(Seq<char>, Seq<char>)>,
    t: (int, int, int),
)
    ensures
        cands_keys(i, j, rec, keys).contains(t) <==> (t.0 == i && t.1 == j && 0 <= t.2 < keys.len()
            && key_opens(rec, keys[t.2])),
    decreases keys.len(),
{
    if keys.len() == 0 {
        vstd::seq_lib::lemma_seq_empty_contains_nothing(t);
    } else {
        let prefix = keys.drop_last();
        lemma_cands_keys_contains(i, j, rec, prefix, t);
        let rest = cands_keys(i, j, rec, prefix);
        if key_opens(rec, keys.last()) {
            vstd::seq_lib::lemma_seq_contains_after_push(rest, (i, j, keys.len() - 1), t);
        }
        if 0 <= t.2 < prefix.len() {
            assert(prefix[t.2] == keys[t.2]);
        }
    }
}

proof fn lemma_cands_certs_contains(i: int, rec: Option<String>, certs: Seq<Cert>, t: (int, int, int))
    ensures
        cands_certs(i, rec, certs).contains(t) <==> (t.0 == i && 0 <= t.1 < certs.len() && 0 <= t.2
            < cert_secret_keys(certs[t.1]).len() && key_opens(rec, cert_secret_keys(certs[t.1])[t.2])),
    decreases certs.len(),
{
    if certs.len() == 0 {
        vstd::seq_lib::lemma_seq_empty_contains_nothing(t);
    } else {
        let prefix = certs.drop_last();
        lemma_cands_certs_contains(i, rec, prefix, t);
        lemma_cands_keys_contains(i, certs.len() - 1, rec, cert_secret_keys(certs.last()), t);
        vstd::seq_lib::lemma_seq_concat_contains_all_elements(
            cands_certs(i, rec, prefix),
            cands_keys(i, certs.len() - 1, rec, cert_secret_keys(certs.last())),
            t,
        );
        if 0 <= t.1 < prefix.len() {
            assert(prefix[t.1] == certs[t.1]);
        }
    }
}

/// The decryptor tries exactly the secret keys that may open each session
/// key: an attempt (session key, certificate, key) is made if and only if
/// all three exist and the key may open the session key.
pub proof fn lemma_decrypt_candidates_exact(recipients: Seq<Option<String>>, certs: Seq<Cert>, t: (int, int, int))
    ensures
        spec_decrypt_candidates(recipients, certs).contains(t) <==> (0 <= t.0 < recipients.len() && 0 <= t.1
            < certs.len() && 0 <= t.2 < cert_secret_keys(certs[t.1]).len() && key_opens(
            recipients[t.0],
            cert_secret_keys(certs[t.1])[t.2],
        )),
    decreases recipients.len(),
{
    if recipients.len() == 0 {
        vstd::seq_lib::lemma_seq_empty_contains_nothing(t);
    } else {
        let prefix = recipients.drop_last();
        lemma_decrypt_candidates_exact(prefix, certs, t);
        lemma_cands_certs_contains(recipients.len() - 1, recipients.last(), certs, t);
        vstd::seq_lib::lemma_seq_concat_contains_all_elements(
            spec_decrypt_candidates(prefix, certs),
            cands_certs(recipients.len() - 1, recipients.last(), certs),
            t,
        );
        if 0 <= t.0 < prefix.len() {
            assert(prefix[t.0] == recipients[t.0]);
        }
    }
}

/// Index triples as integers.
pub open spec fn triples(v: Seq<(usize, usize, usize)>) -> Seq<(int, int, int)> {
    v.map_values(|t: (usize, usize, usize)| (t.0 as int, t.1 as int, t.2 as int))
}

/// The attempts the decryptor makes to open a session key, in order (see
/// `spec_decrypt_candidates`): the session keys are given by their
/// recipients (upper-case hex fingerprint or key ID, `None` when
/// anonymous), and each attempt names a session key, a secret certificate
/// and one of its keys that carry secret material.
pub fn decrypt_candidates(recipients: &Vec<Option<String>>, certs: &Vec<Cert>) -> (r: Vec<(usize, usize, usize)>)
    ensures
        triples(r@) == spec_decrypt_candidates(recipients@, certs@),
{
    let mut out: Vec<(usize, usize, usize)> = Vec::new();
    let mut i: usize = 0;
    while i < recipients.len()
        invariant
            i <= recipients@.len(),
            triples(out@) == spec_decrypt_candidates(recipients@.take(i as int), certs@),
        decreases recipients@.len() - i,
    {
        let ghost before_i = triples(out@);
        let rec = &recipients[i];
        let mut j: usize = 0;
        assert(certs@.take(0) =~= Seq::<Cert>::empty());
        assert(triples(out@) =~= before_i + cands_certs(i as int, *rec, certs@.take(0)));
        while j < certs.len()
            invariant
                i < recipients@.len(),
                *rec == recipients@[i as int],
                j <= certs@.len(),
                before_i == spec_decrypt_candidates(recipients@.take(i as int), certs@),
                triples(out@) == before_i + cands_certs(i as int, *rec, certs@.take(j as int)),
            decreases certs@.len() - j,
        {
            let ghost before_j = triples(out@);
            let handles = cert_secret_key_handles(&certs[j]);
            let ghost keys = cert_secret_keys(certs@[j as int]);
            let mut k: usize = 0;
            assert(keys.take(0) =~= Seq::<(Seq<char>, Seq<char>)>::empty());
            assert(triples(out@) =~= before_j + cands_keys(i as int, j as int, *rec, keys.take(0)));
            while k < handles.len()
                invariant
                    i < recipients@.len(),
                    *rec == recipients@[i as int],
                    j < certs@.len(),
                    keys == cert_secret_keys(certs@[j as int]),
                    handles@.len() == keys.len(),
                    forall|m: int| 0 <= m < handles@.len() ==> (#[trigger] handles@[m].0@, handles@[m].1@) == keys[m],
                    k <= handles@.len(),
                    triples(out@) == before_j + cands_keys(i as int, j as int, *rec, keys.take(k as int)),
                decreases handles@.len() - k,
            {
                let ghost before_k = out@;
                let opens = recipient_matches(rec.as_ref(), &handles[k].0, &handles[k].1);
                assert(handles@[k as int].0@ == keys[k as int].0 && handles@[k as int].1@ == keys[k as int].1) by {
                    assert((handles@[k as int].0@, handles@[k as int].1@) == keys[k as int]);
                }
                assert(keys.take(k + 1).drop_last() =~= keys.take(k as int));
                if opens {
                    out.push((i, j, k));
                    assert(triples(out@) =~= triples(before_k).push((i as int, j as int, k as int)));
                } else {
                    assert(triples(out@) =~= triples(before_k));
                }
                k = k + 1;
            }
            assert(keys.take(k as int) =~= keys);
            assert(certs@.take(j + 1).drop_last() =~= certs@.take(j as int));
            assert(triples(out@) =~= before_i + cands_certs(i as int, *rec, certs@.take(j + 1)));
            j = j + 1;
        }
        assert(certs@.take(j as int) =~= certs@);
        assert(recipients@.take(i + 1).drop_last() =~= recipients@.take(i as int));
        assert(triples(out@) =~= spec_decrypt_candidates(recipients@.take(i + 1), certs@));
        i = i + 1;
    }
    assert(recipients@.take(i as int) =~= recipients@);
    out
}

} // verus!
