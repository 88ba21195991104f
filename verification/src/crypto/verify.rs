//! Detached-signature verification: per-signature records and validity.

use vstd::prelude::*;

use sequoia_openpgp::Cert;

use crate::error::{GPG_ERR_BAD_SIGNATURE, GPG_ERR_NO_ERROR, GPG_ERR_NO_PUBKEY, gpg_error, spec_gpg_error};
use crate::ffi_types::{
    GPGME_SIGSUM_GREEN, GPGME_SIGSUM_KEY_MISSING, GPGME_SIGSUM_RED, GPGME_SIGSUM_VALID,
    GPGME_VALIDITY_FULL, GPGME_VALIDITY_UNKNOWN,
};
use crate::keyring::{HandleTest, cert_clone, cert_keys, keys_have_fpr, keys_have_handle, keys_match, opt_view};
use crate::text::{spec_to_uppercase, str_chars, to_uppercase};

verus! {

/// Internal record of a single signature result from a verify operation.
pub struct SigRecord {
    /// Signature expiry timestamp (Unix seconds, 0 = no expiry).
    pub exp_timestamp: u64,
    /// Hex fingerprint of the signing key, or `None` if unavailable.
    pub fpr: Option<String>,
    /// GPGME error code for this signature.
    pub status: u32,
    /// Bitmask of `GPGME_SIGSUM_*` flags.
    pub summary: u32,
    /// Signature creation timestamp (Unix seconds).
    pub timestamp: u64,
    /// Validity level (`GPGME_VALIDITY_*`).
    pub validity: u32,
}

/// One signature result as Sequoia's verifier reports it.
pub enum SigCheck {
    /// A good signature: the signing key's fingerprint, and the signature's
    /// creation and expiration times in Unix seconds where present and not
    /// before the epoch.
    Good { fpr: String, created: Option<u64>, expires: Option<u64> },
    /// The signing key is missing: the signature's issuer handles in order,
    /// a fingerprint as its hex string and a key ID as `None`.
    MissingKey { issuers: Vec<Option<String>> },
    /// Any other failure (bad key, bad or malformed signature, ...).
    Bad,
}

/// The first issuer that is a fingerprint.
pub open spec fn spec_first_fpr(issuers: Seq<Option<String>>) -> Option<Seq<char>>
    decreases issuers.len(),
{
    if issuers.len() == 0 {
        None
    } else {
        match issuers[0] {
            Some(f) => Some(f@),
            None => spec_first_fpr(issuers.drop_first()),
        }
    }
}

/// A time in seconds, or 0 when absent.
pub open spec fn secs_or_zero(t: Option<u64>) -> u64 {
    match t {
        Some(s) => s,
        None => 0,
    }
}

/// The record of one signature result.
pub open spec fn spec_sig_record(r: SigRecord, c: SigCheck) -> bool {
    &&& r.validity == GPGME_VALIDITY_UNKNOWN
    &&& match c {
        SigCheck::Good { fpr, created, expires } => {
            &&& opt_view(r.fpr) == Some(fpr@)
            &&& r.status == GPG_ERR_NO_ERROR
            &&& r.summary == (GPGME_SIGSUM_GREEN | GPGME_SIGSUM_VALID)
            &&& r.timestamp == secs_or_zero(created)
            &&& r.exp_timestamp == secs_or_zero(expires)
        },
        SigCheck::MissingKey { issuers } => {
            &&& opt_view(r.fpr) == spec_first_fpr(issuers@)
            &&& r.status == spec_gpg_error(GPG_ERR_NO_PUBKEY)
            &&& r.summary == GPGME_SIGSUM_KEY_MISSING
            &&& r.timestamp == 0 && r.exp_timestamp == 0
        },
        SigCheck::Bad => {
            &&& r.fpr is None
            &&& r.status == spec_gpg_error(GPG_ERR_BAD_SIGNATURE)
            &&& r.summary == GPGME_SIGSUM_RED
            &&& r.timestamp == 0 && r.exp_timestamp == 0
        },
    }
}

/// The first issuer handle that is a fingerprint.
fn first_fpr(issuers: &Vec<Option<String>>) -> (r: Option<String>)
    ensures
        opt_view(r) == spec_first_fpr(issuers@),
{
    let mut i: usize = 0;
    assert(issuers@.skip(0) =~= issuers@);
    while i < issuers.len()
        invariant
            i <= issuers@.len(),
            spec_first_fpr(issuers@) == spec_first_fpr(issuers@.skip(i as int)),
        decreases issuers@.len() - i,
    {
        assert(issuers@.skip(i as int).drop_first() =~= issuers@.skip(i + 1));
        match &issuers[i] {
            Some(f) => {
                return Some(f.clone());
            },
            None => {},
        }
        i = i + 1;
    }
    assert(issuers@.skip(i as int).len() == 0);
    None
}

/// The record Sequoia's result for one signature becomes.
pub fn sig_record_from_check(c: &SigCheck) -> (r: SigRecord)
    ensures
        spec_sig_record(r, *c),
{
    match c {
        SigCheck::Good { fpr, created, expires } => SigRecord {
            fpr: Some(fpr.clone()),
            status: GPG_ERR_NO_ERROR,
            summary: GPGME_SIGSUM_GREEN | GPGME_SIGSUM_VALID,
            validity: GPGME_VALIDITY_UNKNOWN,
            timestamp: match created {
                Some(s) => *s,
                None => 0,
            },
            exp_timestamp: match expires {
                Some(s) => *s,
                None => 0,
            },
        },
        SigCheck::MissingKey { issuers } => SigRecord {
            fpr: first_fpr(issuers),
            status: gpg_error(GPG_ERR_NO_PUBKEY),
            summary: GPGME_SIGSUM_KEY_MISSING,
            validity: GPGME_VALIDITY_UNKNOWN,
            timestamp: 0,
            exp_timestamp: 0,
        },
        SigCheck::Bad => SigRecord {
            fpr: None,
            status: gpg_error(GPG_ERR_BAD_SIGNATURE),
            summary: GPGME_SIGSUM_RED,
            validity: GPGME_VALIDITY_UNKNOWN,
            timestamp: 0,
            exp_timestamp: 0,
        },
    }
}

/// The records of a verification: one per signature result, in order, when
/// it ran to the end; a single "bad signature" record when it failed.
pub fn verification_records(outcome: &Option<Vec<SigCheck>>) -> (r: Vec<SigRecord>)
    ensures
        outcome matches Some(checks) ==> r@.len() == checks@.len() && forall|i: int|
            0 <= i < r@.len() ==> spec_sig_record(#[trigger] r@[i], checks@[i]),
        outcome is None ==> r@.len() == 1 && spec_sig_record(r@[0], SigCheck::Bad),
{
    match outcome {
        None => {
            let mut v: Vec<SigRecord> = Vec::new();
            v.push(sig_record_from_check(&SigCheck::Bad));
            v
        },
        Some(checks) => {
            let mut v: Vec<SigRecord> = Vec::new();
            let mut i: usize = 0;
            while i < checks.len()
                invariant
                    i <= checks@.len(),
                    v@.len() == i,
                    forall|k: int| 0 <= k < i ==> spec_sig_record(#[trigger] v@[k], checks@[k]),
                decreases checks@.len() - i,
            {
                v.push(sig_record_from_check(&checks[i]));
                i = i + 1;
            }
            v
        },
    }
}

/// A good signature whose validity is not yet full.
pub open spec fn needs_upgrade(r: SigRecord) -> bool {
    r.status == GPG_ERR_NO_ERROR && r.validity < GPGME_VALIDITY_FULL
}

/// Whether any record could be upgraded, so that the keyring is worth loading.
pub fn needs_keyring(records: &Vec<SigRecord>) -> (r: bool)
    ensures
        r == exists|i: int| 0 <= i < records@.len() && needs_upgrade(#[trigger] records@[i]),
{
    let mut i: usize = 0;
    while i < records.len()
        invariant
            i <= records@.len(),
            forall|k: int| 0 <= k < i ==> !needs_upgrade(#[trigger] records@[k]),
        decreases records@.len() - i,
    {
        if records[i].status == GPG_ERR_NO_ERROR && records[i].validity < GPGME_VALIDITY_FULL {
            return true;
        }
        i = i + 1;
    }
    false
}

/// Some certificate holds a key with exactly this fingerprint.
pub open spec fn in_keyring(certs: Seq<Cert>, fpr: Seq<char>) -> bool {
    exists|i: int| 0 <= i < certs.len() && keys_have_fpr(cert_keys(#[trigger] certs[i]), fpr)
}

/// Whether some certificate holds a key whose fingerprint is the upper-cased `fpr`.
pub fn fpr_in_keyring(certs: &Vec<Cert>, fpr: &String) -> (r: bool)
    ensures
        r == in_keyring(certs@, spec_to_uppercase(fpr@)),
{
    let upper = to_uppercase(fpr.as_str());
    let pat = str_chars(upper.as_str());
    let mut i: usize = 0;
    while i < certs.len()
        invariant
            pat@ == spec_to_uppercase(fpr@),
            i <= certs@.len(),
            forall|k: int| 0 <= k < i ==> !keys_have_fpr(cert_keys(#[trigger] certs@[k]), pat@),
        decreases certs@.len() - i,
    {
        if keys_match(&certs[i], &pat, HandleTest::ExactFingerprint) {
            return true;
        }
        i = i + 1;
    }
    false
}

/// A record is upgraded when it is a good signature below full validity and
/// its signing key is in the keyring.
pub open spec fn upgrades(r: SigRecord, certs: Seq<Cert>) -> bool {
    needs_upgrade(r) && match r.fpr {
        Some(f) => in_keyring(certs, spec_to_uppercase(f@)),
        None => false,
    }
}

/// The record after the keyring check: an upgraded record gets full
/// validity and the "valid" summary flag; every other field stays.
pub open spec fn spec_upgraded(new: SigRecord, old: SigRecord, certs: Seq<Cert>) -> bool {
    &&& new.fpr == old.fpr
    &&& new.status == old.status
    &&& new.timestamp == old.timestamp
    &&& new.exp_timestamp == old.exp_timestamp
    &&& if upgrades(old, certs) {
        new.validity == GPGME_VALIDITY_FULL && new.summary == (old.summary | GPGME_SIGSUM_VALID)
    } else {
        new.validity == old.validity && new.summary == old.summary
    }
}

/// Upgrade the validity of good signatures made by keys in the local keyring.
pub fn upgrade_validity(records: &mut Vec<SigRecord>, certs: &Vec<Cert>)
    ensures
        final(records)@.len() == old(records)@.len(),
        forall|i: int|
            0 <= i < old(records)@.len() ==> spec_upgraded(#[trigger] final(records)@[i], old(records)@[i], certs@),
{
    let ghost orig = records@;
    let mut i: usize = 0;
    while i < records.len()
        invariant
            records@.len() == orig.len(),
            i <= orig.len(),
            forall|k: int| 0 <= k < i ==> spec_upgraded(#[trigger] records@[k], orig[k], certs@),
            forall|k: int| i <= k < orig.len() ==> #[trigger] records@[k] == orig[k],
        decreases orig.len() - i,
    {
        let hit = if records[i].status == GPG_ERR_NO_ERROR && records[i].validity < GPGME_VALIDITY_FULL {
            match &records[i].fpr {
                Some(f) => fpr_in_keyring(certs, f),
                None => false,
            }
        } else {
            false
        };
        if hit {
            let rec = &records[i];
            let updated = SigRecord {
                exp_timestamp: rec.exp_timestamp,
                fpr: match &rec.fpr {
                    Some(f) => Some(f.clone()),
                    None => None,
                },
                status: rec.status,
                summary: rec.summary | GPGME_SIGSUM_VALID,
                timestamp: rec.timestamp,
                validity: GPGME_VALIDITY_FULL,
            };
            records.set(i, updated);
        }
        i = i + 1;
    }
}

/// The certificates a verifier asks for by key handles: for each handle in
/// turn, every certificate holding a key with that fingerprint or key ID.
pub open spec fn spec_certs_for_handles(certs: Seq<Cert>, ids: Seq<String>) -> Seq<Cert>
    decreases ids.len(),
{
    if ids.len() == 0 {
        Seq::empty()
    } else {
        spec_certs_for_handles(certs, ids.drop_last()) + certs.filter(
            |c: Cert| keys_have_handle(cert_keys(c), ids.last()@),
        )
    }
}

proof fn lemma_filter_member<A>(s: Seq<A>, pred: spec_fn(A) -> bool, x: A)
    ensures
        s.filter(pred).contains(x) <==> s.contains(x) && pred(x),
    decreases s.len(),
{
    reveal_with_fuel(Seq::filter, 1);
    if s.len() == 0 {
        vstd::seq_lib::lemma_seq_empty_contains_nothing(x);
        assert(s.filter(pred) =~= Seq::<A>::empty());
    } else {
        let prefix = s.drop_last();
        lemma_filter_member(prefix, pred, x);
        assert(s =~= prefix.push(s.last()));
        vstd::seq_lib::lemma_seq_contains_after_push(prefix, s.last(), x);
        if pred(s.last()) {
            vstd::seq_lib::lemma_seq_contains_after_push(prefix.filter(pred), s.last(), x);
        }
    }
}

/// A verifier asking for key handles gets exactly the keyring's
/// certificates that hold a key with one of those handles (as fingerprint
/// or key ID).
pub proof fn lemma_certs_for_handles_exact(certs: Seq<Cert>, ids: Seq<String>, c: Cert)
    ensures
        spec_certs_for_handles(certs, ids).contains(c) <==> certs.contains(c) && exists|i: int|
            0 <= i < ids.len() && keys_have_handle(cert_keys(c), #[trigger] ids[i]@),
    decreases ids.len(),
{
    if ids.len() == 0 {
        vstd::seq_lib::lemma_seq_empty_contains_nothing(c);
    } else {
        let prefix = ids.drop_last();
        let pred = |d: Cert| keys_have_handle(cert_keys(d), ids.last()@);
        lemma_certs_for_handles_exact(certs, prefix, c);
        lemma_filter_member(certs, pred, c);
        vstd::seq_lib::lemma_seq_concat_contains_all_elements(
            spec_certs_for_handles(certs, prefix),
            certs.filter(pred),
            c,
        );
        if exists|i: int| 0 <= i < ids.len() && keys_have_handle(cert_keys(c), #[trigger] ids[i]@) {
            let i = choose|i: int| 0 <= i < ids.len() && keys_have_handle(cert_keys(c), #[trigger] ids[i]@);
            if i < prefix.len() {
                assert(prefix[i] == ids[i]);
            }
        }
        if exists|i: int| 0 <= i < prefix.len() && keys_have_handle(cert_keys(c), #[trigger] prefix[i]@) {
            let i = choose|i: int| 0 <= i < prefix.len() && keys_have_handle(cert_keys(c), #[trigger] prefix[i]@);
            assert(prefix[i] == ids[i]);
        }
    }
}

/// Collect, for each handle in turn, every certificate holding a key with
/// that fingerprint or key ID (handles given as upper-case hex).
pub fn certs_for_handles(certs: &Vec<Cert>, ids: &Vec<String>) -> (r: Vec<Cert>)
    ensures
        r@ == spec_certs_for_handles(certs@, ids@),
{
    let mut out: Vec<Cert> = Vec::new();
    let mut i: usize = 0;
    while i < ids.len()
        invariant
            i <= ids@.len(),
            out@ == spec_certs_for_handles(certs@, ids@.take(i as int)),
        decreases ids@.len() - i,
    {
        let id = str_chars(ids[i].as_str());
        let ghost pred = |c: Cert| keys_have_handle(cert_keys(c), ids@[i as int]@);
        let ghost prefix = out@;
        let mut j: usize = 0;
        while j < certs.len()
            invariant
                i < ids@.len(),
                id@ == ids@[i as int]@,
                pred == (|c: Cert| keys_have_handle(cert_keys(c), ids@[i as int]@)),
                j <= certs@.len(),
                out@ == prefix + certs@.take(j as int).filter(pred),
            decreases certs@.len() - j,
        {
            let c = &certs[j];
            if keys_match(c, &id, HandleTest::Exact) {
                out.push(cert_clone(c));
            }
            proof {
                reveal_with_fuel(Seq::filter, 1);
                assert(certs@.take(j + 1).drop_last() =~= certs@.take(j as int));
                assert(certs@.take(j + 1).filter(pred) == certs@.take(j as int).filter(pred) + (if pred(
                    certs@[j as int],
                ) {
                    seq![certs@[j as int]]
                } else {
                    Seq::empty()
                }));
            }
            assert(out@ =~= prefix + certs@.take(j + 1).filter(pred));
            j = j + 1;
        }
        assert(certs@.take(certs@.len() as int) =~= certs@);
        assert(ids@.take(i + 1).drop_last() =~= ids@.take(i as int));
        i = i + 1;
    }
    assert(ids@.take(ids@.len() as int) =~= ids@);
    out
}

} // verus!
