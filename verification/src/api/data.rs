//! Data objects: creation, reading, writing, seeking and release.

use vstd::prelude::*;

use crate::data::{SeekError, SqData, spec_read, spec_read_count, spec_seek, spec_seek_target, spec_stored_pos, spec_write};
use crate::error::GPG_ERR_NO_ERROR;
use crate::ffi_types::GPGME_DATA_ENCODING_NONE;

verus! {

/// A count as the C `ssize_t` it is reported as, saturating at `isize::MAX`.
pub open spec fn spec_ssize(n: int) -> isize {
    if n <= isize::MAX { n as isize } else { isize::MAX }
}

fn to_ssize(n: usize) -> (r: isize)
    ensures
        r == spec_ssize(n as int),
{
    if n as u128 <= isize::MAX as u128 {
        n as isize
    } else {
        isize::MAX
    }
}

/// An empty data object.
pub fn gpgme_data_new() -> (d: SqData)
    ensures
        d.buf@ == Seq::<u8>::empty(),
        d.pos == 0,
{
    SqData::new()
}

/// A data object holding a copy of `buf` (the bytes are always copied).
pub fn gpgme_data_new_from_mem(buf: &[u8]) -> (d: SqData)
    ensures
        d.buf@ == buf@,
        d.pos == 0,
{
    SqData::from_mem(buf)
}

/// A data object holding everything read from a stream or a file
/// descriptor up to its end.
pub fn gpgme_data_new_from_stream(contents: Vec<u8>) -> (d: SqData)
    ensures
        d.buf@ == contents@,
        d.pos == 0,
{
    SqData::from_vec(contents)
}

/// A data object holding the contents of a file; a file that could not be
/// read gives an empty object.
pub fn gpgme_data_new_from_file(contents: Option<Vec<u8>>) -> (d: SqData)
    ensures
        contents matches Some(c) ==> d.buf@ == c@,
        contents is None ==> d.buf@ == Seq::<u8>::empty(),
        d.pos == 0,
{
    match contents {
        Some(c) => SqData::from_vec(c),
        None => SqData::new(),
    }
}

/// Read up to `size` bytes at the current position: the bytes read and
/// their count as `ssize_t`.
pub fn gpgme_data_read(dh: &mut SqData, size: usize) -> (r: (Vec<u8>, isize))
    ensures
        r.0@ == spec_read(old(dh).buf@, old(dh).pos as int, size as int),
        r.1 == spec_ssize(spec_read_count(old(dh).buf@.len() as int, old(dh).pos as int, size as int)),
        final(dh).buf@ == old(dh).buf@,
        final(dh).pos == old(dh).pos + r.0@.len(),
{
    let bytes = dh.read(size);
    let n = to_ssize(bytes.len());
    (bytes, n)
}

/// Write `src` at the current position; returns the count written as
/// `ssize_t`.
pub fn gpgme_data_write(dh: &mut SqData, src: &[u8]) -> (r: isize)
    requires
        old(dh).pos + src@.len() <= usize::MAX,
    ensures
        r == spec_ssize(src@.len() as int),
        final(dh).buf@ == spec_write(old(dh).buf@, old(dh).pos as int, src@),
        final(dh).pos == old(dh).pos + src@.len(),
{
    let n = dh.write(src);
    to_ssize(n)
}

/// Seek as POSIX `lseek` does; an error leaves the position unchanged and
/// is reported by the C entry point as `-1` with `errno` set to `EINVAL`.
pub fn gpgme_data_seek(dh: &mut SqData, offset: i64, whence: i32) -> (r: Result<i64, SeekError>)
    ensures
        r == spec_seek(old(dh).buf@.len() as int, old(dh).pos as int, offset, whence),
        final(dh).buf@ == old(dh).buf@,
        r is Ok ==> final(dh).pos == spec_stored_pos(
            spec_seek_target(old(dh).buf@.len() as int, old(dh).pos as int, offset, whence)->0,
        ),
        r is Err ==> final(dh).pos == old(dh).pos,
{
    dh.seek(offset, whence)
}

/// Reset the position to the beginning.
pub fn gpgme_data_rewind(dh: &mut SqData) -> (r: u32)
    ensures
        r == GPG_ERR_NO_ERROR,
        final(dh).buf@ == old(dh).buf@,
        final(dh).pos == 0,
{
    dh.rewind();
    GPG_ERR_NO_ERROR
}

/// Release a data object, handing back its contents followed by a NUL byte
/// and the number of data bytes.
pub fn gpgme_data_release_and_get_mem(dh: SqData) -> (r: (Vec<u8>, usize))
    ensures
        r.0@ == dh.buf@.push(0u8),
        r.1 == dh.buf@.len(),
{
    dh.release_and_get_mem()
}

/// The encoding of a data object: always none.
pub fn gpgme_data_get_encoding(dh: &SqData) -> (r: u32)
    ensures
        r == GPGME_DATA_ENCODING_NONE,
{
    GPGME_DATA_ENCODING_NONE
}

} // verus!
