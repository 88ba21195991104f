//! Protocol names and the write-all loop of `gpgme_io_writen`.

use vstd::prelude::*;

use crate::ffi_types::GPGME_PROTOCOL_OPENPGP;

verus! {

/// The name of a protocol: `OpenPGP` is the only one known.
pub fn gpgme_get_protocol_name(proto: u32) -> (r: Option<&'static str>)
    ensures
        proto == GPGME_PROTOCOL_OPENPGP ==> (r matches Some(s) && s@ == "OpenPGP"@),
        proto != GPGME_PROTOCOL_OPENPGP ==> r is None,
{
    if proto == GPGME_PROTOCOL_OPENPGP {
        Some("OpenPGP")
    } else {
        None
    }
}

/// The next write of `gpgme_io_writen` once `written` of `count` bytes
/// went out: the offset and length of the rest, or none when all is written.
pub open spec fn spec_writen_next(count: usize, written: usize) -> Option<(usize, usize)> {
    if written < count {
        Some((written, (count - written) as usize))
    } else {
        None
    }
}

/// The bytes written so far after a write call returned `result`: a
/// negative result ends the loop with -1, any other adds to the count
/// (saturating).
pub open spec fn spec_writen_after(written: usize, result: isize) -> Result<usize, i32> {
    if result < 0 {
        Err(-1i32)
    } else if written + result <= usize::MAX {
        Ok((written + result) as usize)
    } else {
        Ok(usize::MAX)
    }
}

/// The next write `gpgme_io_writen` makes.
pub fn io_writen_next(count: usize, written: usize) -> (r: Option<(usize, usize)>)
    ensures
        r == spec_writen_next(count, written),
{
    if written < count {
        Some((written, count - written))
    } else {
        None
    }
}

/// The bytes written so far after one write call returned `result`.
pub fn io_writen_after(written: usize, result: isize) -> (r: Result<usize, i32>)
    ensures
        r == spec_writen_after(written, result),
{
    if result < 0 {
        return Err(-1);
    }
    let n = result as usize;
    if written <= usize::MAX - n {
        Ok(written + n)
    } else {
        Ok(usize::MAX)
    }
}

/// Each write that sends some of what was asked (a result between 1 and
/// the length asked for) moves the count strictly forward and never past
/// `count`: the loop ends with all `count` bytes written, or with -1 at
/// the first failed write.
pub proof fn lemma_writen_progress(count: usize, written: usize, result: isize)
    requires
        spec_writen_next(count, written) matches Some((off, len)) && 0 < result <= len,
    ensures
        spec_writen_after(written, result) matches Ok(w) && written < w <= count,
        spec_writen_next(count, written) matches Some((off, _)) && off == written,
{
}

} // verus!
