//! Keyrings of Sequoia certificates: parsing, the key and user-ID contents
//! that the library reads, certificate selection, and the GPGME key record.

use vstd::prelude::*;
use vstd::string::StrSliceExecFns;

use sequoia_openpgp::Cert;
use sequoia_openpgp::crypto::Password;
use sequoia_openpgp::cert::CertParser;
use sequoia_openpgp::packet::UserID;
use sequoia_openpgp::parse::Parse;
use sequoia_openpgp::policy::StandardPolicy;
use sequoia_openpgp::serialize::Serialize;
use sequoia_openpgp::types::RevocationStatus;

use crate::crypto::pgp::password_from;
use crate::ffi_types::{
    GPGME_KEYLIST_MODE_LOCAL, GPGME_PROTOCOL_OPENPGP, GPGME_VALIDITY_UNKNOWN, GpgmeKey,
    GpgmeSubkey, GpgmeUserId,
};
use crate::text::{
    occurs_at, contains_chars, ends_with_chars, eq_chars, find_chars, spec_contains, spec_ends_with, spec_find_from,
    spec_find, spec_to_uppercase, spec_trim, spec_utf8_lossy, str_chars, string_from_chars,
    to_uppercase, trim_chars, utf8_lossy,
};

verus! {

/// A Sequoia certificate, carried through the library as an opaque value.
#[verifier::external_type_specification]
#[verifier::external_body]
pub struct ExCert(Cert);

/// The keys a certificate holds, primary key first, each as its upper-case
/// hex fingerprint and upper-case hex key ID.
pub uninterp spec fn cert_keys(c: Cert) -> Seq<(Seq<char>, Seq<char>)>;

/// The keys of a certificate that carry secret key material, in the order
/// of `cert_keys`, each as its upper-case hex fingerprint and key ID.
pub uninterp spec fn cert_secret_keys(c: Cert) -> Seq<(Seq<char>, Seq<char>)>;

/// The raw values of the user IDs a certificate holds, in order.
pub uninterp spec fn cert_userids(c: Cert) -> Seq<Seq<u8>>;

/// Whether a certificate holds secret key material (`Cert::is_tsk`).
pub uninterp spec fn cert_has_secret(c: Cert) -> bool;

/// The key validity period, in seconds, that the newest self-signature of a
/// certificate's primary key carries (its Key Expiration Time subpacket),
/// or `None` when it carries none.
pub uninterp spec fn cert_key_validity(c: Cert) -> Option<u64>;

/// The subkeys of a certificate in its order, each as the first octet of the
/// key flags of its binding signature and the key validity period, in
/// seconds, that signature carries.
pub uninterp spec fn cert_subkeys(c: Cert) -> Seq<(u8, Option<u64>)>;

/// The creation time of a certificate's primary key in Unix seconds, or
/// `None` when it lies before the epoch.
pub uninterp spec fn cert_creation_secs(c: Cert) -> Option<u64>;

/// The bytes `Serialize::serialize` writes for a certificate.
pub uninterp spec fn cert_serialized(c: Cert) -> Seq<u8>;

/// The bytes `Serialize::serialize` writes for a certificate with its
/// secret key material (`Cert::as_tsk`).
pub uninterp spec fn cert_tsk_serialized(c: Cert) -> Seq<u8>;

/// The certificates `CertParser::from_bytes` yields for a byte string
/// (unparsable ones skipped), each given by its keys, user IDs and
/// whether it holds secret material.
pub uninterp spec fn parsed_certs(bytes: Seq<u8>) -> Seq<(Seq<(Seq<char>, Seq<char>)>, Seq<Seq<u8>>, bool)>;

/// The name component of a user ID value (`UserID::name`), if it parses and has one.
pub uninterp spec fn spec_userid_name(value: Seq<u8>) -> Option<Seq<char>>;

/// The e-mail component of a user ID value (`UserID::email`), if it parses and has one.
pub uninterp spec fn spec_userid_email(value: Seq<u8>) -> Option<Seq<char>>;

/// What the library reads of a certificate.
pub open spec fn cert_summary(c: Cert) -> (Seq<(Seq<char>, Seq<char>)>, Seq<Seq<u8>>, bool) {
    (cert_keys(c), cert_userids(c), cert_has_secret(c))
}

/// The upper-case hex fingerprint of a certificate's primary key.
pub open spec fn cert_fpr(c: Cert) -> Seq<char> {
    cert_keys(c)[0].0
}

/// The summaries of a sequence of certificates.
pub open spec fn summaries(certs: Seq<Cert>) -> Seq<(Seq<(Seq<char>, Seq<char>)>, Seq<Seq<u8>>, bool)> {
    certs.map_values(|c: Cert| cert_summary(c))
}

/// An optional `String` by its characters.
pub open spec fn opt_view(o: Option<String>) -> Option<Seq<char>> {
    match o {
        Some(s) => Some(s@),
        None => None,
    }
}

/// A key handle as `to_hex` writes it: at least one upper-case hex digit.
pub open spec fn is_hex_handle(s: Seq<char>) -> bool {
    s.len() > 0 && forall|i: int| 0 <= i < s.len() ==> ('0' <= #[trigger] s[i] <= '9' || 'A' <= s[i] <= 'F')
}

/// Calls `CertParser::from_bytes` and keeps every certificate that parsed.
#[verifier::external_body]
pub(crate) fn parse_certs(bytes: &[u8]) -> (r: Vec<Cert>)
    ensures
        summaries(r@) == parsed_certs(bytes@),
{
    CertParser::from_bytes(bytes).into_iter().flatten().filter_map(Result::ok).collect()
}

/// Lists a certificate's keys (`Cert::keys`), primary first, as upper-case
/// hex fingerprint and key ID (`to_hex`, two digits per byte of a v4 or v6
/// fingerprint or key ID); there is always the primary key.
#[verifier::external_body]
pub(crate) fn cert_key_handles(c: &Cert) -> (r: Vec<(String, String)>)
    ensures
        r@.len() == cert_keys(*c).len(),
        r@.len() >= 1,
        forall|i: int| 0 <= i < r@.len() ==> (#[trigger] r@[i].0@, r@[i].1@) == cert_keys(*c)[i],
        forall|i: int| 0 <= i < r@.len() ==> is_hex_handle(#[trigger] r@[i].0@) && is_hex_handle(r@[i].1@),
{
    c.keys().map(|ka| (ka.key().fingerprint().to_hex(), ka.key().keyid().to_hex())).collect()
}

/// Lists the keys of a certificate that carry secret key material
/// (`KeyAmalgamationIter::secret`), as upper-case hex fingerprint and key ID.
#[verifier::external_body]
pub(crate) fn cert_secret_key_handles(c: &Cert) -> (r: Vec<(String, String)>)
    ensures
        r@.len() == cert_secret_keys(*c).len(),
        forall|i: int| 0 <= i < r@.len() ==> (#[trigger] r@[i].0@, r@[i].1@) == cert_secret_keys(*c)[i],
{
    c.keys().secret().map(|ka| (ka.key().fingerprint().to_hex(), ka.key().keyid().to_hex())).collect()
}

/// Lists the raw values of a certificate's user IDs (`Cert::userids`).
#[verifier::external_body]
pub(crate) fn cert_userid_values(c: &Cert) -> (r: Vec<Vec<u8>>)
    ensures
        r@.len() == cert_userids(*c).len(),
        forall|i: int| 0 <= i < r@.len() ==> #[trigger] r@[i]@ == cert_userids(*c)[i],
{
    c.userids().map(|ua| ua.component().value().to_vec()).collect()
}

/// Calls `Cert::is_tsk`.
#[verifier::external_body]
pub(crate) fn cert_is_tsk(c: &Cert) -> (r: bool)
    ensures
        r == cert_has_secret(*c),
{
    c.is_tsk()
}

/// Reads the primary key's creation time as Unix seconds.
#[verifier::external_body]
pub(crate) fn cert_creation(c: &Cert) -> (r: Option<u64>)
    ensures
        r == cert_creation_secs(*c),
{
    c.primary_key().key().creation_time().duration_since(std::time::UNIX_EPOCH).ok().map(|d| d.as_secs())
}

/// Calls `Cert::revocation_status` under the standard policy at the current
/// time and tells whether it is `Revoked`. The answer depends on the clock,
/// so nothing is stated of it.
#[verifier::external_body]
pub(crate) fn cert_revoked_now(c: &Cert) -> (r: bool)
{
    matches!(c.revocation_status(&StandardPolicy::new(), None), RevocationStatus::Revoked(_))
}

/// Calls `Cert::clone` (derived: the copy is the same value).
#[verifier::external_body]
pub(crate) fn cert_clone(c: &Cert) -> (r: Cert)
    ensures
        r == *c,
{
    c.clone()
}

/// Serializes a certificate (`Serialize::serialize`) into a fresh buffer;
/// on an error the bytes written so far are kept, as the keyring export does.
#[verifier::external_body]
pub(crate) fn cert_to_bytes(c: &Cert) -> (r: Vec<u8>)
    ensures
        r@ == cert_serialized(*c),
{
    let mut out = Vec::new();
    drop(c.serialize(&mut out));
    out
}

/// Calls `UserID::name` on a user ID value.
#[verifier::external_body]
pub(crate) fn userid_name(value: &[u8]) -> (r: Option<String>)
    ensures
        opt_view(r) == spec_userid_name(value@),
{
    UserID::from(value.to_vec()).name().ok().flatten().map(str::to_owned)
}

/// Calls `UserID::email` on a user ID value.
#[verifier::external_body]
pub(crate) fn userid_email(value: &[u8]) -> (r: Option<String>)
    ensures
        opt_view(r) == spec_userid_email(value@),
{
    UserID::from(value.to_vec()).email().ok().flatten().map(str::to_owned)
}

// ── Keyring loading ───────────────────────────────────────────────────────────

/// The certificates read from a keyring file: its parsed certificates when
/// there is at least one, else `None` (the caller then asks `gpg-sq`).
pub fn keyring_from_file(bytes: &[u8]) -> (r: Option<Vec<Cert>>)
    ensures
        r is Some <==> parsed_certs(bytes@).len() > 0,
        r matches Some(v) ==> summaries(v@) == parsed_certs(bytes@),
{
    let certs = parse_certs(bytes);
    if certs.len() > 0 {
        Some(certs)
    } else {
        None
    }
}

/// The certificates in the output of `gpg-sq --export`: none for empty output.
pub fn keyring_from_export(out: &[u8]) -> (r: Vec<Cert>)
    ensures
        out@.len() == 0 ==> r@.len() == 0,
        out@.len() > 0 ==> summaries(r@) == parsed_certs(out@),
{
    if out.len() == 0 {
        Vec::new()
    } else {
        parse_certs(out)
    }
}

/// The summary of a certificate that holds secret material.
pub open spec fn is_secret_summary(s: (Seq<(Seq<char>, Seq<char>)>, Seq<Seq<u8>>, bool)) -> bool {
    s.2
}

/// Keep the certificates that hold secret key material.
pub fn keep_secret(certs: Vec<Cert>) -> (r: Vec<Cert>)
    ensures
        summaries(r@) == summaries(certs@).filter(|s| is_secret_summary(s)),
{
    let mut out: Vec<Cert> = Vec::new();
    let mut i: usize = 0;
    while i < certs.len()
        invariant
            i <= certs@.len(),
            summaries(out@) == summaries(certs@.take(i as int)).filter(|s| is_secret_summary(s)),
        decreases certs@.len() - i,
    {
        let c = &certs[i];
        let keep = cert_is_tsk(c);
        let ghost before = out@;
        if keep {
            out.push(cert_clone(c));
        }
        proof {
            reveal_with_fuel(Seq::filter, 1);
            let pred = |s: (Seq<(Seq<char>, Seq<char>)>, Seq<Seq<u8>>, bool)| is_secret_summary(s);
            assert(summaries(certs@.take(i + 1)).drop_last() =~= summaries(certs@.take(i as int)));
            if keep {
                assert(summaries(out@) =~= summaries(before).push(cert_summary(certs@[i as int])));
            } else {
                assert(summaries(out@) =~= summaries(before));
            }
        }
        i = i + 1;
    }
    assert(certs@.take(certs@.len() as int) =~= certs@);
    out
}

/// The secret certificates read from a keyring file, or `None` when it has none.
pub fn secret_keyring_from_file(bytes: &[u8]) -> (r: Option<Vec<Cert>>)
    ensures
        r is Some <==> parsed_certs(bytes@).filter(|s| is_secret_summary(s)).len() > 0,
        r matches Some(v) ==> summaries(v@) == parsed_certs(bytes@).filter(|s| is_secret_summary(s)),
{
    let certs = keep_secret(parse_certs(bytes));
    if certs.len() > 0 {
        Some(certs)
    } else {
        None
    }
}

/// The secret certificates in the output of `gpg-sq --export-secret-keys`.
pub fn secret_keyring_from_export(out: &[u8]) -> (r: Vec<Cert>)
    ensures
        out@.len() == 0 ==> r@.len() == 0,
        out@.len() > 0 ==> summaries(r@) == parsed_certs(out@).filter(|s| is_secret_summary(s)),
{
    if out.len() == 0 {
        Vec::new()
    } else {
        keep_secret(parse_certs(out))
    }
}

// ── Strings for the C boundary ────────────────────────────────────────────────

/// What `opt_cstring` gives: nothing for an empty string or one that holds a
/// NUL character (no C string can carry it), else the string.
pub open spec fn spec_opt_cstring(s: Seq<char>) -> Option<Seq<char>> {
    if s.len() == 0 || s.contains('\0') {
        None
    } else {
        Some(s)
    }
}

/// The string to hand out as a C string, or `None` where a null pointer goes.
pub fn opt_cstring(src: &str) -> (r: Option<String>)
    ensures
        opt_view(r) == spec_opt_cstring(src@),
{
    let chars = str_chars(src);
    if chars.len() == 0 {
        return None;
    }
    let mut i: usize = 0;
    while i < chars.len()
        invariant
            chars@ == src@,
            i <= chars@.len(),
            forall|k: int| 0 <= k < i ==> chars@[k] != '\0',
        decreases chars@.len() - i,
    {
        if chars[i] == '\0' {
            assert(src@.contains('\0')) by {
                assert(src@[i as int] == '\0');
            }
            return None;
        }
        i = i + 1;
    }
    Some(src.to_owned())
}

/// `opt_cstring` for an owned string.
fn opt_cstring_owned(src: String) -> (r: Option<String>)
    ensures
        opt_view(r) == spec_opt_cstring(src@),
{
    opt_cstring(src.as_str())
}

/// The value between `<key>` and the next `</key>` after it, trimmed.
pub open spec fn spec_extract_parm(parms: Seq<char>, key: Seq<char>) -> Option<Seq<char>> {
    let open = seq!['<'] + key + seq!['>'];
    let close = seq!['<', '/'] + key + seq!['>'];
    match spec_find(parms, open) {
        None => None,
        Some(i) => {
            let rest = parms.skip(i + open.len());
            match spec_find(rest, close) {
                None => None,
                Some(j) => Some(spec_trim(rest.take(j))),
            }
        },
    }
}

/// Extract a simple XML-style `<key>...</key>` value from a parameter string.
///
/// Returns `None` if the opening tag, or a closing tag after it, is absent.
pub fn extract_parm(parms: &str, key: &str) -> (r: Option<String>)
    ensures
        opt_view(r) == spec_extract_parm(parms@, key@),
{
    let text = str_chars(parms);
    let key_chars = str_chars(key);
    let mut open: Vec<char> = Vec::new();
    open.push('<');
    let mut close: Vec<char> = Vec::new();
    close.push('<');
    close.push('/');
    let mut i: usize = 0;
    while i < key_chars.len()
        invariant
            i <= key_chars@.len(),
            open@ == seq!['<'] + key_chars@.take(i as int),
            close@ == seq!['<', '/'] + key_chars@.take(i as int),
        decreases key_chars@.len() - i,
    {
        open.push(key_chars[i]);
        close.push(key_chars[i]);
        i = i + 1;
        assert(open@ =~= seq!['<'] + key_chars@.take(i as int));
        assert(close@ =~= seq!['<', '/'] + key_chars@.take(i as int));
    }
    open.push('>');
    close.push('>');
    assert(key_chars@.take(key_chars@.len() as int) =~= key@);
    assert(open@ =~= seq!['<'] + key@ + seq!['>']);
    assert(close@ =~= seq!['<', '/'] + key@ + seq!['>']);
    let found = find_chars(&text, &open);
    proof {
        crate::text::lemma_find_from_sound(text@, open@, 0);
    }
    let start = match found {
        Some(i) => {
            assert(occurs_at(text@, open@, i as int));
            assert(i + open@.len() <= text@.len());
            assert(text@.len() == text.len());
            i + open.len()
        },
        None => return None,
    };
    let mut rest: Vec<char> = Vec::new();
    let mut k: usize = start;
    while k < text.len()
        invariant
            start <= text@.len(),
            start <= k <= text@.len(),
            rest@ == text@.subrange(start as int, k as int),
        decreases text@.len() - k,
    {
        rest.push(text[k]);
        k = k + 1;
        assert(rest@ =~= text@.subrange(start as int, k as int));
    }
    assert(rest@ =~= text@.skip(start as int));
    let end = match find_chars(&rest, &close) {
        Some(j) => j,
        None => return None,
    };
    proof {
        crate::text::lemma_find_from_sound(rest@, close@, 0);
    }
    let mut inner: Vec<char> = Vec::new();
    let mut m: usize = 0;
    while m < end
        invariant
            end <= rest@.len(),
            m <= end,
            inner@ == rest@.take(m as int),
        decreases end - m,
    {
        inner.push(rest[m]);
        m = m + 1;
        assert(inner@ =~= rest@.take(m as int));
    }
    let trimmed = trim_chars(&inner);
    Some(string_from_chars(&trimmed))
}

/// A search from `i` finds `n` when no earlier index from `i` on is an
/// occurrence and `n` is one.
proof fn lemma_find_from_first(s: Seq<char>, pat: Seq<char>, i: int, n: int)
    requires
        0 <= i <= n,
        occurs_at(s, pat, n),
        forall|k: int| i <= k < n ==> !occurs_at(s, pat, k),
    ensures
        spec_find_from(s, pat, i) == Some(n),
    decreases n - i,
{
    if i < n {
        lemma_find_from_first(s, pat, i + 1, n);
    }
}

/// What `extract_parm` reads back of a parameter written as
/// `<key>value</key>`: the value, trimmed, whenever the value holds no `<`.
pub proof fn lemma_extract_parm_roundtrip(key: Seq<char>, value: Seq<char>)
    requires
        !value.contains('<'),
    ensures
        spec_extract_parm(
            seq!['<'] + key + seq!['>'] + value + (seq!['<', '/'] + key + seq!['>']),
            key,
        ) == Some(spec_trim(value)),
{
    let open = seq!['<'] + key + seq!['>'];
    let close = seq!['<', '/'] + key + seq!['>'];
    let parms = open + value + close;
    assert(parms.subrange(0, open.len() as int) =~= open);
    lemma_find_from_first(parms, open, 0, 0);
    let rest = parms.skip(open.len() as int);
    assert(rest =~= value + close);
    assert(rest.subrange(value.len() as int, (value.len() + close.len()) as int) =~= close);
    assert forall|k: int| 0 <= k < value.len() implies !occurs_at(rest, close, k) by {
        if occurs_at(rest, close, k) {
            assert(rest.subrange(k, k + close.len())[0] == close[0]);
            assert(value[k] == '<');
        }
    }
    lemma_find_from_first(rest, close, 0, value.len() as int);
    assert(rest.take(value.len() as int) =~= value);
}

// ── The GPGME key record ──────────────────────────────────────────────────────

/// The creation timestamp a key record carries: 0 before the epoch, else the
/// seconds saturated at `i64::MAX`.
pub open spec fn spec_key_timestamp(created: Option<u64>) -> i64 {
    match created {
        None => 0,
        Some(s) => if s <= i64::MAX { s as i64 } else { i64::MAX },
    }
}

/// A present string, or the empty string.
pub open spec fn unwrap_or_empty(o: Option<Seq<char>>) -> Seq<char> {
    match o {
        Some(s) => s,
        None => Seq::empty(),
    }
}

/// The user-ID record built from a user ID value.
pub open spec fn spec_uid_record(u: GpgmeUserId, value: Seq<u8>) -> bool {
    &&& u.bitflags == 0
    &&& u.validity == GPGME_VALIDITY_UNKNOWN
    &&& opt_view(u.uid) == spec_opt_cstring(spec_utf8_lossy(value))
    &&& opt_view(u.name) == spec_opt_cstring(unwrap_or_empty(spec_userid_name(value)))
    &&& opt_view(u.email) == spec_opt_cstring(unwrap_or_empty(spec_userid_email(value)))
    &&& u.comment is None
}

/// The GPGME key record of a certificate, all but its revocation bit (which
/// depends on the current time).
pub open spec fn spec_cert_key(k: GpgmeKey, c: Cert) -> bool {
    &&& k.refs == 1
    &&& k.protocol == GPGME_PROTOCOL_OPENPGP
    &&& k.owner_trust == GPGME_VALIDITY_UNKNOWN
    &&& k.keylist_mode == GPGME_KEYLIST_MODE_LOCAL
    &&& k.last_update == 0
    &&& (k.bitflags == 0 || k.bitflags == 1)
    &&& opt_view(k.fpr) == spec_opt_cstring(cert_fpr(c))
    &&& k.subkeys matches Some(sk) && {
        &&& sk.bitflags == 0 && sk.pubkey_algo == 0 && sk.length == 0 && sk.expires == 0
        &&& opt_view(sk.keyid) == spec_opt_cstring(cert_keys(c)[0].1)
        &&& opt_view(sk.fpr) == spec_opt_cstring(cert_fpr(c))
        &&& sk.timestamp == spec_key_timestamp(cert_creation_secs(c))
    }
    &&& k.uids matches Some(u) && if cert_userids(c).len() > 0 {
        spec_uid_record(u, cert_userids(c)[0])
    } else {
        u.bitflags == 0 && u.validity == 0 && u.uid is None && u.name is None && u.email is None
            && u.comment is None
    }
}

/// A hex handle can be handed out as a C string.
proof fn lemma_hex_is_cstring(s: Seq<char>)
    requires
        is_hex_handle(s),
    ensures
        spec_opt_cstring(s) == Some(s),
{
    if s.contains('\0') {
        let i = choose|i: int| 0 <= i < s.len() && s[i] == '\0';
        assert('0' <= s[i] <= '9' || 'A' <= s[i] <= 'F');
    }
}

/// Convert a Sequoia certificate into a GPGME key record with one reference.
pub fn cert_to_key(cert: &Cert) -> (k: GpgmeKey)
    ensures
        spec_cert_key(k, *cert),
        opt_view(k.fpr) == Some(cert_fpr(*cert)),
        k.subkeys matches Some(sk) && opt_view(sk.fpr) == Some(cert_fpr(*cert)) && opt_view(sk.keyid) == Some(
            cert_keys(*cert)[0].1,
        ),
{
    let handles = cert_key_handles(cert);
    proof {
        assert(is_hex_handle(handles@[0].0@) && is_hex_handle(handles@[0].1@));
        assert((handles@[0].0@, handles@[0].1@) == cert_keys(*cert)[0]);
        lemma_hex_is_cstring(handles@[0].0@);
        lemma_hex_is_cstring(handles@[0].1@);
    }
    let fpr_str = handles[0].0.clone();
    let keyid_str = handles[0].1.clone();
    let created = cert_creation(cert);
    let ts: i64 = match created {
        None => 0,
        Some(s) => if s <= 0x7FFF_FFFF_FFFF_FFFFu64 { s as i64 } else { 0x7FFF_FFFF_FFFF_FFFFi64 },
    };
    let subkey = GpgmeSubkey {
        bitflags: 0,
        pubkey_algo: 0,
        length: 0,
        keyid: opt_cstring(keyid_str.as_str()),
        fpr: opt_cstring(fpr_str.as_str()),
        timestamp: ts,
        expires: 0,
    };
    let userids = cert_userid_values(cert);
    let uid = if userids.len() == 0 {
        GpgmeUserId { bitflags: 0, validity: 0, uid: None, name: None, email: None, comment: None }
    } else {
        let value = userids[0].as_slice();
        let uid_str = utf8_lossy(value);
        let name_str = match userid_name(value) {
            Some(n) => n,
            None => String::new(),
        };
        let email_str = match userid_email(value) {
            Some(e) => e,
            None => String::new(),
        };
        GpgmeUserId {
            bitflags: 0,
            validity: GPGME_VALIDITY_UNKNOWN,
            uid: opt_cstring_owned(uid_str),
            name: opt_cstring_owned(name_str),
            email: opt_cstring_owned(email_str),
            comment: None,
        }
    };
    let revoked: u32 = if cert_revoked_now(cert) { 1 } else { 0 };
    GpgmeKey {
        refs: 1,
        bitflags: revoked,
        protocol: GPGME_PROTOCOL_OPENPGP,
        owner_trust: GPGME_VALIDITY_UNKNOWN,
        subkeys: Some(subkey),
        uids: Some(uid),
        keylist_mode: GPGME_KEYLIST_MODE_LOCAL,
        fpr: opt_cstring(fpr_str.as_str()),
        last_update: 0,
    }
}

// ── Certificate selection ─────────────────────────────────────────────────────

/// Which test a key's handles are held to.
pub enum HandleTest {
    /// The fingerprint or key ID ends with the pattern.
    Suffix,
    /// The fingerprint or key ID contains the pattern.
    Infix,
    /// The fingerprint or key ID equals the pattern.
    Exact,
    /// The fingerprint equals the pattern.
    ExactFingerprint,
}

/// Whether one key, given by its fingerprint and key ID, passes `test` against `pat`.
pub open spec fn key_passes(key: (Seq<char>, Seq<char>), pat: Seq<char>, test: HandleTest) -> bool {
    match test {
        HandleTest::Suffix => spec_ends_with(key.0, pat) || spec_ends_with(key.1, pat),
        HandleTest::Infix => spec_contains(key.0, pat) || spec_contains(key.1, pat),
        HandleTest::Exact => key.0 == pat || key.1 == pat,
        HandleTest::ExactFingerprint => key.0 == pat,
    }
}

/// Some key passes `test` against `pat`.
pub open spec fn spec_keys_match(keys: Seq<(Seq<char>, Seq<char>)>, pat: Seq<char>, test: HandleTest) -> bool {
    exists|i: int| 0 <= i < keys.len() && key_passes(#[trigger] keys[i], pat, test)
}

/// Some key's fingerprint or key ID ends with `pat`.
pub open spec fn keys_match_suffix(keys: Seq<(Seq<char>, Seq<char>)>, pat: Seq<char>) -> bool {
    spec_keys_match(keys, pat, HandleTest::Suffix)
}

/// Some key's fingerprint or key ID contains `pat`.
pub open spec fn keys_match_infix(keys: Seq<(Seq<char>, Seq<char>)>, pat: Seq<char>) -> bool {
    spec_keys_match(keys, pat, HandleTest::Infix)
}

/// Some key's fingerprint or key ID is exactly `handle`.
pub open spec fn keys_have_handle(keys: Seq<(Seq<char>, Seq<char>)>, handle: Seq<char>) -> bool {
    spec_keys_match(keys, handle, HandleTest::Exact)
}

/// Some key's fingerprint is exactly `fpr`.
pub open spec fn keys_have_fpr(keys: Seq<(Seq<char>, Seq<char>)>, fpr: Seq<char>) -> bool {
    spec_keys_match(keys, fpr, HandleTest::ExactFingerprint)
}

/// Some user ID, decoded lossily and upper-cased, contains `pat`.
pub open spec fn userids_match(uids: Seq<Seq<u8>>, pat: Seq<char>) -> bool {
    exists|i: int|
        0 <= i < uids.len() && spec_contains(spec_to_uppercase(spec_utf8_lossy(#[trigger] uids[i])), pat)
}

/// Whether some key of `c` passes `test` against `pat`.
pub fn keys_match(c: &Cert, pat: &Vec<char>, test: HandleTest) -> (r: bool)
    ensures
        r == spec_keys_match(cert_keys(*c), pat@, test),
{
    let handles = cert_key_handles(c);
    let mut i: usize = 0;
    while i < handles.len()
        invariant
            handles@.len() == cert_keys(*c).len(),
            forall|k: int| 0 <= k < handles@.len() ==> (#[trigger] handles@[k].0@, handles@[k].1@) == cert_keys(*c)[k],
            i <= handles@.len(),
            forall|k: int| 0 <= k < i ==> !key_passes(#[trigger] cert_keys(*c)[k], pat@, test),
        decreases handles@.len() - i,
    {
        let fpr = str_chars(handles[i].0.as_str());
        let kid = str_chars(handles[i].1.as_str());
        assert((handles@[i as int].0@, handles@[i as int].1@) == cert_keys(*c)[i as int]);
        let hit = match test {
            HandleTest::Suffix => ends_with_chars(&fpr, pat) || ends_with_chars(&kid, pat),
            HandleTest::Infix => contains_chars(&fpr, pat) || contains_chars(&kid, pat),
            HandleTest::Exact => eq_chars(&fpr, pat) || eq_chars(&kid, pat),
            HandleTest::ExactFingerprint => eq_chars(&fpr, pat),
        };
        assert(hit == key_passes(cert_keys(*c)[i as int], pat@, test));
        if hit {
            return true;
        }
        i = i + 1;
    }
    false
}

/// Whether some user ID of `c`, decoded lossily and upper-cased, contains `pat`.
pub fn userids_contain(c: &Cert, pat: &Vec<char>) -> (r: bool)
    ensures
        r == userids_match(cert_userids(*c), pat@),
{
    let uids = cert_userid_values(c);
    let mut i: usize = 0;
    while i < uids.len()
        invariant
            uids@.len() == cert_userids(*c).len(),
            forall|k: int| 0 <= k < uids@.len() ==> #[trigger] uids@[k]@ == cert_userids(*c)[k],
            i <= uids@.len(),
            forall|k: int|
                0 <= k < i ==> !spec_contains(spec_to_uppercase(spec_utf8_lossy(#[trigger] cert_userids(*c)[k])), pat@),
        decreases uids@.len() - i,
    {
        let text = utf8_lossy(uids[i].as_slice());
        let upper = to_uppercase(text.as_str());
        let chars = str_chars(upper.as_str());
        assert(uids@[i as int]@ == cert_userids(*c)[i as int]);
        if contains_chars(&chars, pat) {
            return true;
        }
        i = i + 1;
    }
    false
}

/// The first certificate with a key whose fingerprint or key ID ends with
/// the upper-cased `fpr`, as `gpgme_get_key` looks keys up.
pub fn find_cert_by_key_suffix(certs: &Vec<Cert>, fpr: &str) -> (r: Option<usize>)
    ensures
        r matches Some(i) ==> i < certs@.len() && keys_match_suffix(
            cert_keys(certs@[i as int]),
            spec_to_uppercase(fpr@),
        ) && forall|j: int|
            0 <= j < i ==> !keys_match_suffix(cert_keys(#[trigger] certs@[j]), spec_to_uppercase(fpr@)),
        r is None ==> forall|j: int|
            0 <= j < certs@.len() ==> !keys_match_suffix(cert_keys(#[trigger] certs@[j]), spec_to_uppercase(fpr@)),
{
    let upper = to_uppercase(fpr);
    let pat = str_chars(upper.as_str());
    let mut i: usize = 0;
    while i < certs.len()
        invariant
            pat@ == spec_to_uppercase(fpr@),
            i <= certs@.len(),
            forall|j: int|
                0 <= j < i ==> !keys_match_suffix(cert_keys(#[trigger] certs@[j]), spec_to_uppercase(fpr@)),
        decreases certs@.len() - i,
    {
        if keys_match(&certs[i], &pat, HandleTest::Suffix) {
            return Some(i);
        }
        i = i + 1;
    }
    None
}

/// A certificate listed by a keylist search for the upper-cased pattern `pat`.
pub open spec fn keylist_matches(c: Cert, pat: Seq<char>) -> bool {
    keys_match_infix(cert_keys(c), pat) || userids_match(cert_userids(c), pat)
}

/// Keep the certificates a keylist search for `pattern` lists: those with a
/// key whose fingerprint or key ID contains the upper-cased pattern, or a
/// user ID that, upper-cased, contains it. Without a pattern, all are kept.
pub fn keylist_filter(certs: &Vec<Cert>, pattern: Option<&str>) -> (r: Vec<Cert>)
    ensures
        pattern is None ==> r@ == certs@,
        pattern matches Some(p) ==> r@ == certs@.filter(|c: Cert| keylist_matches(c, spec_to_uppercase(p@))),
{
    let pat = match pattern {
        Some(p) => str_chars(to_uppercase(p).as_str()),
        None => Vec::new(),
    };
    let ghost pred = |c: Cert| keylist_matches(c, pat@);
    let mut out: Vec<Cert> = Vec::new();
    let mut i: usize = 0;
    while i < certs.len()
        invariant
            pattern matches Some(p) ==> pat@ == spec_to_uppercase(p@),
            pred == (|c: Cert| keylist_matches(c, pat@)),
            i <= certs@.len(),
            pattern is None ==> out@ == certs@.take(i as int),
            pattern is Some ==> out@ == certs@.take(i as int).filter(pred),
        decreases certs@.len() - i,
    {
        let c = &certs[i];
        let keep = match pattern {
            None => true,
            Some(_) => keys_match(c, &pat, HandleTest::Infix) || userids_contain(c, &pat),
        };
        let ghost before = out@;
        if keep {
            out.push(cert_clone(c));
        }
        proof {
            reveal_with_fuel(Seq::filter, 1);
            assert(certs@.take(i + 1).drop_last() =~= certs@.take(i as int));
            if pattern is None {
                assert(out@ =~= certs@.take(i + 1));
            }
        }
        i = i + 1;
    }
    assert(certs@.take(certs@.len() as int) =~= certs@);
    out
}

/// The bytes of the certificates, serialized one after the other.
pub open spec fn spec_serialize_all(certs: Seq<Cert>) -> Seq<u8>
    decreases certs.len(),
{
    if certs.len() == 0 {
        Seq::empty()
    } else {
        spec_serialize_all(certs.drop_last()) + cert_serialized(certs.last())
    }
}

/// A certificate exported for the upper-cased pattern `pat`: its primary
/// fingerprint contains it.
pub open spec fn export_matches(c: Cert, pat: Seq<char>) -> bool {
    spec_contains(cert_fpr(c), pat)
}

/// The certificates an export for `pattern` selects: all for an empty
/// pattern, else those whose fingerprint contains the upper-cased pattern.
pub open spec fn spec_export_selection(certs: Seq<Cert>, pattern: Seq<char>) -> Seq<Cert> {
    if pattern.len() == 0 {
        certs
    } else {
        certs.filter(|c: Cert| export_matches(c, spec_to_uppercase(pattern)))
    }
}

/// Serialize the certificates an export for `pattern` selects.
pub fn export_certs(certs: &Vec<Cert>, pattern: &str) -> (r: Vec<u8>)
    ensures
        r@ == spec_serialize_all(spec_export_selection(certs@, pattern@)),
{
    let all = pattern.unicode_len() == 0;
    let pat = if all { Vec::new() } else { str_chars(to_uppercase(pattern).as_str()) };
    let ghost pred = |c: Cert| export_matches(c, pat@);
    let ghost selected: Seq<Cert> = Seq::empty();
    let mut out: Vec<u8> = Vec::new();
    let mut i: usize = 0;
    while i < certs.len()
        invariant
            all == (pattern@.len() == 0),
            !all ==> pat@ == spec_to_uppercase(pattern@),
            pred == (|c: Cert| export_matches(c, pat@)),
            i <= certs@.len(),
            all ==> selected == certs@.take(i as int),
            !all ==> selected == certs@.take(i as int).filter(pred),
            out@ == spec_serialize_all(selected),
        decreases certs@.len() - i,
    {
        let c = &certs[i];
        let keep = if all {
            true
        } else {
            let handles = cert_key_handles(c);
            let fpr = str_chars(handles[0].0.as_str());
            assert((handles@[0].0@, handles@[0].1@) == cert_keys(*c)[0]);
            contains_chars(&fpr, &pat)
        };
        if keep {
            let bytes = cert_to_bytes(c);
            proof {
                assert(selected.push(*c).drop_last() =~= selected);
            }
            out.extend_from_slice(bytes.as_slice());
            proof {
                selected = selected.push(*c);
            }
        }
        proof {
            reveal_with_fuel(Seq::filter, 1);
            assert(certs@.take(i + 1).drop_last() =~= certs@.take(i as int));
            if all {
                assert(selected =~= certs@.take(i + 1));
            }
        }
        i = i + 1;
    }
    assert(certs@.take(certs@.len() as int) =~= certs@);
    out
}

// ── Keys handed back by the application ───────────────────────────────────────

/// The fingerprint a key record stands for: its own, else its primary
/// subkey's, else none.
pub open spec fn spec_key_fpr(k: GpgmeKey) -> Option<Seq<char>> {
    match k.fpr {
        Some(f) => Some(f@),
        None => match k.subkeys {
            Some(sk) => opt_view(sk.fpr),
            None => None,
        },
    }
}

/// The fingerprint a key record stands for.
pub fn key_fpr(k: &GpgmeKey) -> (r: Option<String>)
    ensures
        opt_view(r) == spec_key_fpr(*k),
{
    match &k.fpr {
        Some(f) => Some(f.clone()),
        None => match &k.subkeys {
            Some(sk) => match &sk.fpr {
                Some(f) => Some(f.clone()),
                None => None,
            },
            None => None,
        },
    }
}

/// The fingerprints of the keys that have one, in order.
pub open spec fn spec_recipient_fprs(keys: Seq<GpgmeKey>) -> Seq<Seq<char>>
    decreases keys.len(),
{
    if keys.len() == 0 {
        Seq::empty()
    } else {
        let rest = spec_recipient_fprs(keys.drop_last());
        match spec_key_fpr(keys.last()) {
            Some(f) => rest.push(f),
            None => rest,
        }
    }
}

/// Collect the fingerprint of each recipient key, skipping keys without one.
pub fn collect_recipient_fprs(keys: &Vec<GpgmeKey>) -> (r: Vec<String>)
    ensures
        r@.map_values(|s: String| s@) == spec_recipient_fprs(keys@),
{
    let mut out: Vec<String> = Vec::new();
    let mut i: usize = 0;
    while i < keys.len()
        invariant
            i <= keys@.len(),
            out@.map_values(|s: String| s@) == spec_recipient_fprs(keys@.take(i as int)),
        decreases keys@.len() - i,
    {
        let f = key_fpr(&keys[i]);
        let ghost before = out@;
        match f {
            Some(s) => out.push(s),
            None => {},
        }
        assert(keys@.take(i + 1).drop_last() =~= keys@.take(i as int));
        assert(out@.map_values(|s: String| s@) =~= spec_recipient_fprs(keys@.take(i + 1)));
        i = i + 1;
    }
    assert(keys@.take(keys@.len() as int) =~= keys@);
    out
}

/// The bytes a passphrase callback wrote, up to the first newline.
pub open spec fn spec_first_line(bytes: Seq<u8>) -> Seq<u8> {
    if exists|i: int| 0 <= i < bytes.len() && bytes[i] == 10u8 {
        let i = choose|i: int| 0 <= i < bytes.len() && bytes[i] == 10u8 && forall|j: int| 0 <= j < i ==> bytes[j] != 10u8;
        bytes.take(i)
    } else {
        bytes
    }
}

/// The passphrase a callback wrote: its first line, when that is valid UTF-8.
pub open spec fn spec_passphrase_line(bytes: Seq<u8>) -> Option<Seq<char>> {
    let line = spec_first_line(bytes);
    if vstd::utf8::valid_utf8(line) {
        Some(vstd::utf8::decode_utf8(line))
    } else {
        None
    }
}

/// The passphrase text in what a passphrase callback wrote to its pipe: the
/// bytes before the first newline, if they are valid UTF-8.
pub fn passphrase_line(bytes: &Vec<u8>) -> (r: Option<String>)
    ensures
        opt_view(r) == spec_passphrase_line(bytes@),
{
    let mut line: Vec<u8> = Vec::new();
    let mut i: usize = 0;
    while i < bytes.len() && bytes[i] != 10u8
        invariant
            i <= bytes@.len(),
            line@ == bytes@.take(i as int),
            forall|j: int| 0 <= j < i ==> bytes@[j] != 10u8,
        decreases bytes@.len() - i,
    {
        line.push(bytes[i]);
        i = i + 1;
        assert(line@ =~= bytes@.take(i as int));
    }
    proof {
        if i < bytes@.len() {
            let w = choose|k: int| 0 <= k < bytes@.len() && bytes@[k] == 10u8 && forall|j: int| 0 <= j < k ==> bytes@[j] != 10u8;
            assert(0 <= (i as int) < bytes@.len() && bytes@[i as int] == 10u8 && forall|j: int| 0 <= j < i ==> bytes@[j] != 10u8);
            if w < i {
                assert(bytes@[w] != 10u8);
            }
            if i < w {
                assert(bytes@[i as int] != 10u8);
            }
            assert(spec_first_line(bytes@) == bytes@.take(i as int));
        } else {
            assert(line@ =~= bytes@);
            assert(spec_first_line(bytes@) == bytes@);
        }
    }
    crate::text::utf8_decode(line)
}

/// The passphrase a passphrase callback wrote to its pipe, ready for use:
/// present exactly when its first line is valid UTF-8.
pub fn passphrase_from_callback_output(bytes: &Vec<u8>) -> (r: Option<Password>)
    ensures
        r is Some <==> spec_passphrase_line(bytes@) is Some,
{
    match passphrase_line(bytes) {
        Some(text) => Some(password_from(text.as_str())),
        None => None,
    }
}

} // verus!
