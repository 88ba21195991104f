//! GPGME error codes, the packed error value, and the error-message table.

use vstd::prelude::*;

verus! {

/// No error occurred.
pub const GPG_ERR_NO_ERROR: u32 = 0;
/// End-of-file sentinel.
pub const GPG_ERR_EOF: u32 = 16383;
/// No public key found.
pub const GPG_ERR_NO_PUBKEY: u32 = 7;
/// Bad signature.
pub const GPG_ERR_BAD_SIGNATURE: u32 = 8;
/// Invalid value supplied to function.
pub const GPG_ERR_INV_VALUE: u32 = 55;
/// Invalid crypto engine.
pub const GPG_ERR_INV_ENGINE: u32 = 108;
/// Feature not implemented.
pub const GPG_ERR_NOT_IMPLEMENTED: u32 = 69;
/// No secret key found.
pub const GPG_ERR_NO_SECKEY: u32 = 17;
/// Error source identifier for GPGME (stored in the top byte).
pub const GPG_ERR_SOURCE_GPGME: u32 = 13;

/// The GPGME error type: a 32-bit packed `(source << 24) | code` value.
pub type GpgmeError = u32;

/// The packed error value: 0 stays 0, any other code gets the GPGME source
/// in the top byte and keeps its low 16 bits.
pub open spec fn spec_gpg_error(code: u32) -> u32 {
    if code == 0 {
        0
    } else {
        (0x0D00_0000 + code % 0x1_0000) as u32
    }
}

/// Pack an error code into a full GPGME error value with the GPGME source tag.
///
/// A zero code is returned unchanged so that `GPG_ERR_NO_ERROR` remains 0.
pub fn gpg_error(code: u32) -> (r: GpgmeError)
    ensures
        r == spec_gpg_error(code),
{
    if code == 0 {
        0
    } else {
        let r = (GPG_ERR_SOURCE_GPGME << 24u32) | (code & 0xFFFFu32);
        assert((13u32 << 24u32) | (code & 0xFFFFu32) == 0x0D00_0000u32 + code % 0x1_0000u32)
            by (bit_vector);
        r
    }
}

/// Return a "not implemented" GPGME error value.
pub fn not_impl() -> (r: GpgmeError)
    ensures
        r == spec_gpg_error(GPG_ERR_NOT_IMPLEMENTED),
        r == 0x0D00_0045,
{
    gpg_error(GPG_ERR_NOT_IMPLEMENTED)
}

/// The message for an error value: the table is keyed by the low 24 bits.
pub open spec fn spec_strerror(err: u32) -> Seq<char> {
    let code = err % 0x100_0000;
    if code == 0 {
        "Success"@
    } else if code == 7 {
        "No public key"@
    } else if code == 8 {
        "Bad signature"@
    } else if code == 17 {
        "No secret key"@
    } else if code == 55 {
        "Invalid value"@
    } else if code == 63 {
        "Key expired"@
    } else if code == 65 {
        "Signature expired"@
    } else if code == 69 {
        "Not implemented"@
    } else if code == 86 {
        "Out of memory"@
    } else if code == 108 {
        "Invalid crypto engine"@
    } else if code == 16383 {
        "End of file"@
    } else {
        "Unknown error"@
    }
}

/// Return a human-readable description for a GPGME error value.
pub fn gpgme_strerror(err: u32) -> (r: &'static str)
    ensures
        r@ == spec_strerror(err),
{
    let code = err & 0x00FF_FFFFu32;
    assert(err & 0x00FF_FFFFu32 == err % 0x100_0000u32) by (bit_vector);
    if code == 0 {
        "Success"
    } else if code == 7 {
        "No public key"
    } else if code == 8 {
        "Bad signature"
    } else if code == 17 {
        "No secret key"
    } else if code == 55 {
        "Invalid value"
    } else if code == 63 {
        "Key expired"
    } else if code == 65 {
        "Signature expired"
    } else if code == 69 {
        "Not implemented"
    } else if code == 86 {
        "Out of memory"
    } else if code == 108 {
        "Invalid crypto engine"
    } else if code == 16383 {
        "End of file"
    } else {
        "Unknown error"
    }
}

/// The bytes that `gpgme_strerror_r` writes into a buffer of `buflen` bytes:
/// as much of the message as fits, always followed by a NUL byte.
pub open spec fn spec_strerror_r(err: u32, buflen: nat) -> Seq<u8> {
    let msg = vstd::utf8::encode_utf8(spec_strerror(err));
    let keep = if msg.len() < buflen - 1 { msg.len() as int } else { buflen - 1 };
    msg.take(keep) + seq![0u8]
}

/// Compute the bytes to write for the description of `err` into a buffer of
/// `buflen` bytes; `None` when `buflen` is zero (the C entry point returns -1).
pub fn gpgme_strerror_r(err: u32, buflen: usize) -> (r: Option<Vec<u8>>)
    ensures
        buflen == 0 <==> r is None,
        r matches Some(b) ==> b@ == spec_strerror_r(err, buflen as nat) && b@.len() <= buflen,
{
    if buflen == 0 {
        return None;
    }
    let msg = gpgme_strerror(err);
    let bytes = msg.as_bytes();
    let keep = if bytes.len() < buflen - 1 { bytes.len() } else { buflen - 1 };
    let mut out: Vec<u8> = Vec::new();
    let mut i: usize = 0;
    while i < keep
        invariant
            keep <= bytes@.len(),
            i <= keep,
            out@ == bytes@.take(i as int),
        decreases keep - i,
    {
        out.push(bytes[i]);
        i = i + 1;
        assert(out@ =~= bytes@.take(i as int));
    }
    out.push(0u8);
    Some(out)
}

/// Return the name of the GPGME error source.
pub fn gpgme_strsource(err: u32) -> (r: &'static str)
    ensures
        r@ == "GPGME"@,
{
    "GPGME"
}

/// The error code of an `errno` value: itself when non-negative, else 0.
pub open spec fn spec_code_from_errno(errno_val: i32) -> u32 {
    if errno_val >= 0 { errno_val as u32 } else { 0 }
}

/// Convert an `errno` value to a GPGME error code.
pub fn gpgme_err_code_from_errno(errno_val: i32) -> (r: u32)
    ensures
        r == spec_code_from_errno(errno_val),
{
    if errno_val >= 0 { errno_val as u32 } else { 0 }
}

/// Convert a GPGME error code back to an `errno` value (-1 when it does not fit).
pub fn gpgme_err_code_to_errno(code: u32) -> (r: i32)
    ensures
        r == (if code <= i32::MAX { code as i32 } else { -1i32 }),
{
    if code <= 0x7FFF_FFFFu32 { code as i32 } else { -1 }
}

/// Build an error from a source and an `errno` value; the source is ignored.
pub fn gpgme_err_make_from_errno(source: u32, errno_val: i32) -> (r: u32)
    ensures
        r == spec_code_from_errno(errno_val),
{
    gpgme_err_code_from_errno(errno_val)
}

/// Wrap an `errno` value as a packed GPGME error.
pub fn gpgme_error_from_errno(errno_val: i32) -> (r: u32)
    ensures
        r == spec_gpg_error(spec_code_from_errno(errno_val)),
{
    gpg_error(gpgme_err_code_from_errno(errno_val))
}

/// The error code for the current `errno` value: itself when non-negative,
/// else `u32::MAX`.
pub fn gpgme_err_code_from_syserror(errno_val: i32) -> (r: u32)
    ensures
        r == (if errno_val >= 0 { errno_val as u32 } else { u32::MAX }),
{
    if errno_val >= 0 { errno_val as u32 } else { u32::MAX }
}

/// A packed error for the current `errno` value.
pub fn gpgme_error_from_syserror(errno_val: i32) -> (r: u32)
    ensures
        r == spec_gpg_error(spec_code_from_errno(errno_val)),
{
    gpgme_error_from_errno(errno_val)
}

/// A packed error is 0 exactly for code 0; otherwise its top byte is the
/// GPGME source and its low 16 bits are those of the code.
pub proof fn lemma_gpg_error_fields(code: u32)
    ensures
        (spec_gpg_error(code) == 0) <==> (code == 0),
        code != 0 ==> spec_gpg_error(code) / 0x100_0000 == GPG_ERR_SOURCE_GPGME,
        code != 0 ==> spec_gpg_error(code) % 0x1_0000 == code % 0x1_0000,
{
}

/// Packing a code below 2^16 leaves its message unchanged.
pub proof fn lemma_strerror_of_packed(code: u32)
    requires
        code < 0x1_0000,
    ensures
        spec_strerror(spec_gpg_error(code)) == spec_strerror(code),
{
}

} // verus!
