//! Key retrieval, key reference counts and the keylist iteration.

use vstd::prelude::*;

use sequoia_openpgp::Cert;

use crate::context::{SqCtx, is_fresh_ctx};
use crate::data::SqData;
use crate::error::{GPG_ERR_EOF, GPG_ERR_INV_VALUE, GPG_ERR_NO_ERROR, gpg_error, spec_gpg_error};
use crate::ffi_types::{GPGME_KEYLIST_MODE_EXTERN, GpgmeKey};
use crate::keyring::{
    cert_keys, cert_to_key, find_cert_by_key_suffix, keylist_filter, keylist_matches, keys_match_suffix,
    parse_certs, parsed_certs, spec_cert_key, summaries,
};
use crate::text::{spec_ends_with, spec_to_uppercase};

verus! {

/// The certificates a key lookup for `fpr` may answer with: those with a
/// key whose fingerprint or key ID ends with the upper-cased `fpr`.
pub open spec fn answers_lookup(c: Cert, fpr: Seq<char>) -> bool {
    keys_match_suffix(cert_keys(c), spec_to_uppercase(fpr))
}

/// A key lookup answers with a certificate exactly when some key of it, its
/// primary key or any subkey, has a fingerprint or key ID ending with the
/// upper-cased handle (so a signature's subkey fingerprint finds its
/// certificate).
pub proof fn law_lookup_by_any_key(c: Cert, fpr: Seq<char>)
    ensures
        answers_lookup(c, fpr) <==> exists|k: int|
            0 <= k < cert_keys(c).len() && (spec_ends_with(#[trigger] cert_keys(c)[k].0, spec_to_uppercase(fpr))
                || spec_ends_with(cert_keys(c)[k].1, spec_to_uppercase(fpr))),
{
}

/// The keylist mode asks for external lookups as well.
pub open spec fn wants_extern(mode: u32) -> bool {
    mode & GPGME_KEYLIST_MODE_EXTERN != 0
}

/// The answer of a key lookup.
pub enum KeyLookup {
    /// The key record of the certificate found.
    Found(GpgmeKey),
    /// The key is not in the local keyring: receive it from the key servers
    /// by this handle, then look it up again in the updated keyring.
    FetchExternal(String),
    /// The lookup failed with this error.
    Failed(u32),
}

/// Look a key up by fingerprint or key ID (a suffix of either) in the
/// keyring `certs`: the first certificate that answers, as a key record.
/// When none answers and the context's keylist mode asks for external
/// lookups, the key is to be fetched from the key servers first (unless it
/// already was: `fetched`), after which the caller looks again. A missing
/// (or non-UTF-8) handle is `GPG_ERR_INV_VALUE`; no answer is `GPG_ERR_EOF`.
pub fn gpgme_get_key(ctx: &SqCtx, certs: &Vec<Cert>, fpr: Option<&str>, fetched: bool) -> (r: KeyLookup)
    ensures
        fpr is None ==> r == KeyLookup::Failed(spec_gpg_error(GPG_ERR_INV_VALUE)),
        fpr matches Some(f) ==> {
            &&& r is Found <==> exists|i: int| 0 <= i < certs@.len() && answers_lookup(#[trigger] certs@[i], f@)
            &&& r matches KeyLookup::Found(k) ==> exists|i: int|
                0 <= i < certs@.len() && answers_lookup(#[trigger] certs@[i], f@) && spec_cert_key(k, certs@[i])
                    && forall|j: int| 0 <= j < i ==> !answers_lookup(#[trigger] certs@[j], f@)
            &&& r is FetchExternal <==> (r !is Found && wants_extern(ctx.keylist_mode) && !fetched)
            &&& r matches KeyLookup::FetchExternal(h) ==> h@ == f@
            &&& r is Failed ==> r == KeyLookup::Failed(spec_gpg_error(GPG_ERR_EOF))
        },
{
    let f = match fpr {
        Some(f) => f,
        None => return KeyLookup::Failed(gpg_error(GPG_ERR_INV_VALUE)),
    };
    match find_cert_by_key_suffix(certs, f) {
        Some(i) => {
            let k = cert_to_key(&certs[i]);
            assert(answers_lookup(certs@[i as int], f@));
            KeyLookup::Found(k)
        },
        None => {
            assert(forall|i: int| 0 <= i < certs@.len() ==> !answers_lookup(#[trigger] certs@[i], f@));
            if ctx.keylist_mode & GPGME_KEYLIST_MODE_EXTERN != 0 && !fetched {
                KeyLookup::FetchExternal(f.to_owned())
            } else {
                KeyLookup::Failed(gpg_error(GPG_ERR_EOF))
            }
        },
    }
}

/// The reference count after one more reference is taken (saturating).
pub open spec fn spec_ref(refs: u32) -> u32 {
    if refs < u32::MAX { (refs + 1) as u32 } else { u32::MAX }
}

/// The reference count after one reference is dropped (saturating at zero).
pub open spec fn spec_unref(refs: u32) -> u32 {
    if refs > 0 { (refs - 1) as u32 } else { 0 }
}

/// Take one more reference to a key.
pub fn gpgme_key_ref(key: &mut GpgmeKey)
    ensures
        *final(key) == (GpgmeKey { refs: spec_ref(old(key).refs), ..*old(key) }),
{
    key.refs = if key.refs < u32::MAX { key.refs + 1 } else { u32::MAX };
}

/// Drop one reference to a key; the answer says whether none is left, when
/// the C entry point frees the record.
pub fn gpgme_key_unref(key: &mut GpgmeKey) -> (free: bool)
    ensures
        *final(key) == (GpgmeKey { refs: spec_unref(old(key).refs), ..*old(key) }),
        free == (spec_unref(old(key).refs) == 0),
{
    key.refs = if key.refs > 0 { key.refs - 1 } else { 0 };
    key.refs == 0
}

/// Taking a reference and dropping it again restores the count (below the
/// saturation bound), and a key that held a reference is then not freed.
pub proof fn lemma_ref_unref(refs: u32)
    requires
        refs < u32::MAX,
    ensures
        spec_unref(spec_ref(refs)) == refs,
        refs > 0 ==> spec_unref(spec_ref(refs)) != 0,
{
}

/// A new context has its keylist position in range, and so has a context
/// whose keylist was just started or ended (each step keeps it in range, as
/// `gpgme_op_keylist_next` states).
pub proof fn lemma_keylist_wf(fresh: SqCtx, home: Seq<char>, started: SqCtx, old_c: SqCtx, certs: Seq<Cert>)
    requires
        is_fresh_ctx(fresh, home),
        keylist_started(started, old_c, certs),
    ensures
        keylist_wf(fresh),
        keylist_wf(started),
{
}

/// A key record made from a certificate (by a lookup or a keylist step)
/// holds one reference: its first release frees it.
pub proof fn lemma_fresh_key_released(key: GpgmeKey, c: Cert)
    requires
        spec_cert_key(key, c),
    ensures
        spec_unref(key.refs) == 0,
{
}

/// The keylist position of a context lies within its keylist (at its end
/// once the keylist is exhausted).
pub open spec fn keylist_wf(c: SqCtx) -> bool {
    c.keylist_pos <= c.keylist_certs@.len()
}

/// The keylist state of a context after a keylist is started on `certs`.
/// Every other field of the context (settings, signers, the import and
/// verify records) stays as it was.
pub open spec fn keylist_started(c: SqCtx, old_c: SqCtx, certs: Seq<Cert>) -> bool {
    &&& c.keylist_certs@ == certs
    &&& c.keylist_pos == 0
    &&& c == SqCtx { keylist_certs: c.keylist_certs, keylist_pos: 0, ..old_c }
}

/// Start a keylist on the keyring `certs`: all of them without a pattern
/// (or with one that is not UTF-8), else those a search for the upper-cased
/// pattern lists.
pub fn gpgme_op_keylist_start(ctx: &mut SqCtx, certs: &Vec<Cert>, pattern: Option<&str>) -> (r: u32)
    ensures
        r == GPG_ERR_NO_ERROR,
        pattern is None ==> keylist_started(*final(ctx), *old(ctx), certs@),
        pattern matches Some(p) ==> keylist_started(
            *final(ctx),
            *old(ctx),
            certs@.filter(|c: Cert| keylist_matches(c, spec_to_uppercase(p@))),
        ),
{
    ctx.keylist_certs = keylist_filter(certs, pattern);
    ctx.keylist_pos = 0;
    GPG_ERR_NO_ERROR
}

/// Start a keylist for several patterns: the patterns are not looked at and
/// every certificate of the keyring is listed.
pub fn gpgme_op_keylist_ext_start(ctx: &mut SqCtx, certs: &Vec<Cert>) -> (r: u32)
    ensures
        r == GPG_ERR_NO_ERROR,
        keylist_started(*final(ctx), *old(ctx), certs@),
{
    gpgme_op_keylist_start(ctx, certs, None)
}

/// Start a keylist on the certificates held in a data object.
pub fn gpgme_op_keylist_from_data_start(ctx: &mut SqCtx, data: &SqData) -> (r: u32)
    ensures
        r == GPG_ERR_NO_ERROR,
        summaries(final(ctx).keylist_certs@) == parsed_certs(data.buf@),
        keylist_started(*final(ctx), *old(ctx), final(ctx).keylist_certs@),
{
    ctx.keylist_certs = parse_certs(data.buf.as_slice());
    ctx.keylist_pos = 0;
    GPG_ERR_NO_ERROR
}

/// How one keylist step moves a context: the keylist stays, and the
/// position advances by one while it lies within the keylist.
pub open spec fn keylist_step(c: SqCtx, next: SqCtx) -> bool {
    &&& next.keylist_certs@ == c.keylist_certs@
    &&& next.keylist_pos == (if c.keylist_pos < c.keylist_certs@.len() {
        c.keylist_pos + 1
    } else {
        c.keylist_pos as int
    })
}

/// A keylist started on `certs` and stepped through `cs.len() - 1` times
/// visits the certificates in order and then stays exhausted: after `i`
/// steps the position is `min(i, certs.len())`, so step `i` (counting
/// from 0) hands out certificate `i` while `i < certs.len()`, and every
/// later step answers `GPG_ERR_EOF`.
pub proof fn lemma_keylist_order(cs: Seq<SqCtx>, certs: Seq<Cert>)
    requires
        cs.len() > 0,
        cs[0].keylist_certs@ == certs,
        cs[0].keylist_pos == 0,
        forall|i: int| 0 <= i < cs.len() - 1 ==> keylist_step(#[trigger] cs[i], cs[i + 1]),
    ensures
        forall|i: int|
            0 <= i < cs.len() ==> (#[trigger] cs[i]).keylist_certs@ == certs && cs[i].keylist_pos == (if i
                < certs.len() {
                i
            } else {
                certs.len() as int
            }),
    decreases cs.len(),
{
    if cs.len() > 1 {
        let prefix = cs.drop_last();
        assert forall|i: int| 0 <= i < prefix.len() - 1 implies keylist_step(#[trigger] prefix[i], prefix[i + 1]) by {
            assert(keylist_step(cs[i], cs[i + 1]));
        }
        lemma_keylist_order(prefix, certs);
        let n = cs.len() - 1;
        assert(keylist_step(cs[n - 1], cs[n]));
        assert(prefix[n - 1] == cs[n - 1]);
        assert forall|i: int| 0 <= i < cs.len() implies (#[trigger] cs[i]).keylist_certs@ == certs
            && cs[i].keylist_pos == (if i < certs.len() { i } else { certs.len() as int }) by {
            if i < n {
                assert(prefix[i] == cs[i]);
            }
        }
    }
}

/// The next key of the keylist, advancing past it; `GPG_ERR_EOF` once the
/// list is exhausted, which leaves the position where it is.
pub fn gpgme_op_keylist_next(ctx: &mut SqCtx) -> (r: Result<GpgmeKey, u32>)
    ensures
        final(ctx).keylist_certs@ == old(ctx).keylist_certs@,
        old(ctx).keylist_pos < old(ctx).keylist_certs@.len() ==> {
            &&& r matches Ok(k) && spec_cert_key(k, old(ctx).keylist_certs@[old(ctx).keylist_pos as int])
            &&& final(ctx).keylist_pos == old(ctx).keylist_pos + 1
        },
        old(ctx).keylist_pos >= old(ctx).keylist_certs@.len() ==> {
            &&& r == Err::<GpgmeKey, u32>(spec_gpg_error(GPG_ERR_EOF))
            &&& final(ctx).keylist_pos == old(ctx).keylist_pos
        },
        keylist_step(*old(ctx), *final(ctx)),
        keylist_wf(*old(ctx)) ==> keylist_wf(*final(ctx)),
        *final(ctx) == (SqCtx { keylist_pos: final(ctx).keylist_pos, ..*old(ctx) }),
{
    if ctx.keylist_pos < ctx.keylist_certs.len() {
        let k = cert_to_key(&ctx.keylist_certs[ctx.keylist_pos]);
        ctx.keylist_pos = ctx.keylist_pos + 1;
        Ok(k)
    } else {
        Err(gpg_error(GPG_ERR_EOF))
    }
}

/// End the keylist, dropping its certificates.
pub fn gpgme_op_keylist_end(ctx: &mut SqCtx) -> (r: u32)
    ensures
        r == GPG_ERR_NO_ERROR,
        keylist_started(*final(ctx), *old(ctx), Seq::empty()),
{
    ctx.keylist_certs.clear();
    ctx.keylist_pos = 0;
    GPG_ERR_NO_ERROR
}

} // verus!
