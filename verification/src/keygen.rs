//! Key generation: the parameters of a request and the generated key.

use vstd::prelude::*;
use vstd::string::{StrSliceExecFns, StringExecFns};

use crate::crypto::pgp::{CryptoError, built_subkeys, generate_cert, tsk_to_bytes};
use sequoia_openpgp::Cert;

use crate::keyring::{
    cert_has_secret, cert_key_validity, cert_subkeys, cert_tsk_serialized, cert_userids, extract_parm, spec_extract_parm,
};
use crate::text::str_chars;

verus! {

/// The value of a run of ASCII decimal digits.
pub open spec fn digits_value(s: Seq<char>) -> int
    decreases s.len(),
{
    if s.len() == 0 {
        0
    } else {
        digits_value(s.drop_last()) * 10 + (s.last() as int - '0' as int)
    }
}

/// Every character is an ASCII decimal digit.
pub open spec fn all_digits(s: Seq<char>) -> bool {
    forall|i: int| 0 <= i < s.len() ==> '0' <= #[trigger] s[i] && s[i] <= '9'
}

/// What `str::parse::<u64>` gives: an optional `+` sign followed by at least
/// one ASCII digit, with a value that fits in a `u64`.
pub open spec fn spec_parse_u64(s: Seq<char>) -> Option<u64> {
    let d = if s.len() > 0 && s[0] == '+' { s.drop_first() } else { s };
    if d.len() > 0 && all_digits(d) && digits_value(d) <= u64::MAX {
        Some(digits_value(d) as u64)
    } else {
        None
    }
}

/// The value of a prefix of a digit run is at most that of the whole run.
proof fn lemma_digits_value_prefix(s: Seq<char>, k: int)
    requires
        all_digits(s),
        0 <= k <= s.len(),
    ensures
        0 <= digits_value(s.take(k)) <= digits_value(s),
    decreases s.len(),
{
    if s.len() == 0 {
        assert(s.take(k) =~= s);
    } else if k == s.len() {
        assert(s.take(k) =~= s);
        lemma_digits_value_nonneg(s);
    } else {
        assert(all_digits(s.drop_last()));
        lemma_digits_value_prefix(s.drop_last(), k);
        assert(s.drop_last().take(k) =~= s.take(k));
        lemma_digits_value_nonneg(s.drop_last());
    }
}

/// The value of a digit run is not negative.
proof fn lemma_digits_value_nonneg(s: Seq<char>)
    requires
        all_digits(s),
    ensures
        digits_value(s) >= 0,
    decreases s.len(),
{
    if s.len() > 0 {
        assert(all_digits(s.drop_last()));
        lemma_digits_value_nonneg(s.drop_last());
    }
}

/// Parse a decimal `u64` as `str::parse` does.
pub fn parse_u64(s: &str) -> (r: Option<u64>)
    ensures
        r == spec_parse_u64(s@),
{
    let chars = str_chars(s);
    let start: usize = if chars.len() > 0 && chars[0] == '+' { 1 } else { 0 };
    let ghost d = if s@.len() > 0 && s@[0] == '+' { s@.drop_first() } else { s@ };
    assert(d =~= chars@.skip(start as int));
    if start >= chars.len() {
        return None;
    }
    let mut acc: u64 = 0;
    let mut i: usize = start;
    while i < chars.len()
        invariant
            chars@ == s@,
            d == chars@.skip(start as int),
            d == (if s@.len() > 0 && s@[0] == '+' { s@.drop_first() } else { s@ }),
            start <= i <= chars@.len(),
            all_digits(d.take(i - start)),
            acc as int == digits_value(d.take(i - start)),
        decreases chars@.len() - i,
    {
        let c = chars[i];
        assert(d.take(i + 1 - start).drop_last() =~= d.take(i - start));
        assert(d.take(i + 1 - start).last() == c);
        if c < '0' || c > '9' {
            assert(!all_digits(d)) by {
                assert(d[i - start] == c);
            }
            return None;
        }
        let digit = (c as u32 - '0' as u32) as u64;
        if acc > 1844674407370955161u64 || (acc == 1844674407370955161u64 && digit > 5) {
            proof {
                assert(digits_value(d.take(i + 1 - start)) > u64::MAX);
                if all_digits(d) {
                    lemma_digits_value_prefix(d, i + 1 - start);
                }
            }
            return None;
        }
        acc = acc * 10 + digit;
        i = i + 1;
    }
    assert(d.take(i - start) =~= d);
    Some(acc)
}

/// The user ID and expiry (in seconds) a key-generation parameter string
/// asks for: `Name-Real` (default "Generated Key"), followed by
/// ` <Name-Email>` when an e-mail is given, and `Expire-Date` when it parses
/// as a number (default 0).
pub open spec fn spec_genkey_userid(parms: Seq<char>) -> Seq<char> {
    let name = match spec_extract_parm(parms, "Name-Real"@) {
        Some(n) => n,
        None => "Generated Key"@,
    };
    let email = match spec_extract_parm(parms, "Name-Email"@) {
        Some(e) => e,
        None => Seq::empty(),
    };
    if email.len() == 0 {
        name
    } else {
        name + " <"@ + email + ">"@
    }
}

/// The expiry in seconds a key-generation parameter string asks for.
pub open spec fn spec_genkey_expire(parms: Seq<char>) -> u64 {
    match spec_extract_parm(parms, "Expire-Date"@) {
        Some(v) => match spec_parse_u64(v) {
            Some(n) => n,
            None => 0,
        },
        None => 0,
    }
}

/// The user ID and expiry a key-generation parameter string asks for.
pub fn genkey_params(parms: &str) -> (r: (String, u64))
    ensures
        r.0@ == spec_genkey_userid(parms@),
        r.1 == spec_genkey_expire(parms@),
{
    let name = match extract_parm(parms, "Name-Real") {
        Some(n) => n,
        None => "Generated Key".to_owned(),
    };
    let email = match extract_parm(parms, "Name-Email") {
        Some(e) => e,
        None => String::new(),
    };
    let userid = if email.as_str().unicode_len() == 0 {
        name
    } else {
        name.concat(" <").concat(email.as_str()).concat(">")
    };
    let expire = match extract_parm(parms, "Expire-Date") {
        Some(v) => match parse_u64(v.as_str()) {
            Some(n) => n,
            None => 0,
        },
        None => 0,
    };
    (userid, expire)
}

/// The serialization, with secret keys, of a certificate that holds exactly
/// the user ID `userid`, secret key material, the key validity period
/// `validity` and a signing and a transport-encryption subkey valid as long.
pub open spec fn generated_for(bytes: Seq<u8>, userid: Seq<char>, validity: Option<u64>) -> bool {
    exists|c: Cert|
        {
            &&& cert_userids(c) == seq![vstd::utf8::encode_utf8(userid)]
            &&& cert_has_secret(c)
            &&& cert_key_validity(c) == validity
            &&& built_subkeys(cert_subkeys(c), validity)
            &&& bytes == #[trigger] cert_tsk_serialized(c)
        }
}

/// The validity period a key-generation request asks for: `expire_secs`
/// seconds when positive, else none.
pub open spec fn requested_validity(expire_secs: u64) -> Option<u64> {
    if expire_secs > 0 {
        Some(expire_secs)
    } else {
        None
    }
}

/// Generate a new certificate for `userid` and serialize it with its secret
/// keys, ready to be imported. A positive `expire_secs` becomes the keys'
/// validity period; one too long to record (beyond `u32::MAX` seconds) makes
/// generation fail.
pub fn genkey_sq(userid: &str, expire_secs: u64) -> (r: Result<Vec<u8>, CryptoError>)
    ensures
        r matches Err(e) ==> e is Sequoia,
        expire_secs > u32::MAX ==> r is Err,
        r matches Ok(b) ==> generated_for(b@, userid@, requested_validity(expire_secs)),
{
    let validity = if expire_secs > 0 { Some(expire_secs) } else { None };
    let cert = match generate_cert(userid, validity) {
        Ok(c) => c,
        Err(_) => return Err(CryptoError::Sequoia),
    };
    match tsk_to_bytes(&cert) {
        Ok(bytes) => {
            assert(bytes@ == cert_tsk_serialized(cert));
            Ok(bytes)
        },
        Err(_) => Err(CryptoError::Sequoia),
    }
}

} // verus!
