use gpgme_sq::ffi_types::{GpgmeKey, GpgmeSubkey};
use gpgme_sq::keygen::{genkey_params, parse_u64};
use gpgme_sq::keyring::{collect_recipient_fprs, extract_parm, key_fpr, opt_cstring, passphrase_line};
use gpgme_sq::text::{contains_chars, ends_with_chars, eq_chars, find_chars, str_chars, trim_chars};

fn chars(s: &str) -> Vec<char> {
    s.chars().collect()
}

fn bare_key(fpr: Option<&str>, sub_fpr: Option<&str>, keyid: Option<&str>, with_sub: bool) -> GpgmeKey {
    GpgmeKey {
        refs: 1,
        bitflags: 0,
        protocol: 0,
        owner_trust: 0,
        subkeys: if with_sub {
            Some(GpgmeSubkey {
                bitflags: 0,
                pubkey_algo: 0,
                length: 0,
                keyid: keyid.map(str::to_owned),
                fpr: sub_fpr.map(str::to_owned),
                timestamp: 0,
                expires: 0,
            })
        } else {
            None
        },
        uids: None,
        keylist_mode: 1,
        fpr: fpr.map(str::to_owned),
        last_update: 0,
    }
}

#[test]
fn char_searches() {
    assert_eq!(str_chars("héllo"), chars("héllo"));
    assert_eq!(find_chars(&chars("abcabc"), &chars("ca")), Some(2));
    assert_eq!(find_chars(&chars("abc"), &chars("")), Some(0));
    assert_eq!(find_chars(&chars("abc"), &chars("d")), None);
    assert!(contains_chars(&chars("DEADBEEF"), &chars("BEE")));
    assert!(!contains_chars(&chars("DEAD"), &chars("BEEF")));
    assert!(ends_with_chars(&chars("0123ABCD"), &chars("ABCD")));
    assert!(!ends_with_chars(&chars("AB"), &chars("ABC")));
    assert!(eq_chars(&chars("x"), &chars("x")));
    assert!(!eq_chars(&chars("x"), &chars("xy")));
}

#[test]
fn trim_removes_outer_whitespace() {
    assert_eq!(trim_chars(&chars("  a b \t\n")), chars("a b"));
    assert_eq!(trim_chars(&chars("   ")), chars(""));
    assert_eq!(trim_chars(&chars("x")), chars("x"));
    assert_eq!(trim_chars(&chars("\u{3000}wide\u{2003}")), chars("wide"));
}

#[test]
fn extract_parm_reads_tagged_values() {
    let parms = "<GnupgKeyParms format=\"internal\">\n<Name-Real> Alice </Name-Real>\n<Name-Email>a@b.c</Name-Email>\n</GnupgKeyParms>";
    assert_eq!(extract_parm(parms, "Name-Real"), Some("Alice".to_owned()));
    assert_eq!(extract_parm(parms, "Name-Email"), Some("a@b.c".to_owned()));
    assert_eq!(extract_parm(parms, "Expire-Date"), None);
    assert_eq!(extract_parm("<k>open only", "k"), None);
    assert_eq!(extract_parm("<k></k>", "k"), Some(String::new()));
    assert_eq!(extract_parm("<k>v</k><k>w</k>", "k"), Some("v".to_owned()));
}

#[test]
fn extract_parm_round_trip_law() {
    let value = "  some value\t";
    let parms = format!("<Key>{value}</Key>");
    assert_eq!(extract_parm(&parms, "Key"), Some(value.trim().to_owned()));
}

#[test]
fn parse_u64_as_str_parse() {
    assert_eq!(parse_u64("0"), Some(0));
    assert_eq!(parse_u64("86400"), Some(86400));
    assert_eq!(parse_u64("+7"), Some(7));
    assert_eq!(parse_u64("18446744073709551615"), Some(u64::MAX));
    assert_eq!(parse_u64("18446744073709551616"), None);
    assert_eq!(parse_u64(""), None);
    assert_eq!(parse_u64("+"), None);
    assert_eq!(parse_u64("-1"), None);
    assert_eq!(parse_u64("1y"), None);
    for s in ["0", "12", "+3", "99999999999999999999", "x", " 1"] {
        assert_eq!(parse_u64(s), s.parse::<u64>().ok());
    }
}

#[test]
fn genkey_params_defaults_and_values() {
    assert_eq!(genkey_params(""), ("Generated Key".to_owned(), 0));
    assert_eq!(
        genkey_params("<Name-Real>Bob</Name-Real><Name-Email>bob@x.org</Name-Email><Expire-Date>3600</Expire-Date>"),
        ("Bob <bob@x.org>".to_owned(), 3600)
    );
    assert_eq!(genkey_params("<Name-Email>e@x</Name-Email><Expire-Date>soon</Expire-Date>"), ("Generated Key <e@x>".to_owned(), 0));
    assert_eq!(genkey_params("<Name-Real>Carol</Name-Real><Name-Email> </Name-Email>"), ("Carol".to_owned(), 0));
}

#[test]
fn opt_cstring_drops_empty_and_nul() {
    assert_eq!(opt_cstring(""), None);
    assert_eq!(opt_cstring("a\0b"), None);
    assert_eq!(opt_cstring("ABCD"), Some("ABCD".to_owned()));
}

#[test]
fn passphrase_line_stops_at_newline() {
    assert_eq!(passphrase_line(&b"secret\nrest".to_vec()), Some("secret".to_owned()));
    assert_eq!(passphrase_line(&b"nonl".to_vec()), Some("nonl".to_owned()));
    assert_eq!(passphrase_line(&b"\n".to_vec()), Some(String::new()));
    assert_eq!(passphrase_line(&vec![0xFF, b'\n']), None);
}

#[test]
fn key_fingerprints_for_recipients() {
    let own = bare_key(Some("AAAA"), Some("BBBB"), None, true);
    let sub = bare_key(None, Some("CCCC"), Some("DD"), true);
    let none = bare_key(None, None, Some("EE"), true);
    let bare = bare_key(None, None, None, false);
    assert_eq!(key_fpr(&own), Some("AAAA".to_owned()));
    assert_eq!(key_fpr(&sub), Some("CCCC".to_owned()));
    assert_eq!(key_fpr(&none), None);
    assert_eq!(key_fpr(&bare), None);
    assert_eq!(collect_recipient_fprs(&vec![own, none, sub, bare]), vec!["AAAA".to_owned(), "CCCC".to_owned()]);
}
