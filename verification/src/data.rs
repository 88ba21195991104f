//! In-memory data buffer used as the GPGME data object.

use vstd::prelude::*;

verus! {

/// `whence` value: seek from the beginning of the buffer.
pub const SEEK_SET: i32 = 0;
/// `whence` value: seek relative to the current position.
pub const SEEK_CUR: i32 = 1;
/// `whence` value: seek relative to the end of the buffer.
pub const SEEK_END: i32 = 2;

/// In-memory byte buffer used as the GPGME data object; aliased as `GpgmeData`.
pub struct SqData {
    /// Raw contents of the data object.
    pub buf: Vec<u8>,
    /// Current read/write position within `buf` (may lie past its end).
    pub pos: usize,
}

/// C-ABI alias for [`SqData`].
pub type GpgmeData = SqData;

/// Why a seek was refused (the C entry point reports both as `EINVAL`).
pub enum SeekError {
    /// `whence` is none of `SEEK_SET`, `SEEK_CUR`, `SEEK_END`.
    InvalidWhence,
    /// The target position is negative.
    NegativePosition,
}

/// Number of bytes between `pos` and the end of a buffer of `len` bytes.
pub open spec fn spec_available(len: int, pos: int) -> int {
    if pos <= len { len - pos } else { 0 }
}

/// Number of bytes a read of `size` bytes returns.
pub open spec fn spec_read_count(len: int, pos: int, size: int) -> int {
    if spec_available(len, pos) < size { spec_available(len, pos) } else { size }
}

/// The bytes a read of `size` bytes at `pos` returns.
pub open spec fn spec_read(buf: Seq<u8>, pos: int, size: int) -> Seq<u8> {
    if pos <= buf.len() {
        buf.subrange(pos, pos + spec_read_count(buf.len() as int, pos, size))
    } else {
        Seq::empty()
    }
}

/// The buffer after writing `src` at `pos`: zero-filled up to `pos` when
/// `pos` lies past the end, and grown to hold all of `src`.
pub open spec fn spec_write(buf: Seq<u8>, pos: int, src: Seq<u8>) -> Seq<u8> {
    let end = pos + src.len();
    let new_len = if end > buf.len() { end } else { buf.len() as int };
    Seq::new(
        new_len as nat,
        |i: int|
            if pos <= i && i < end {
                src[i - pos]
            } else if i < buf.len() {
                buf[i]
            } else {
                0u8
            },
    )
}

/// Clamp a mathematical integer to the range of `i64` (saturating addition).
pub open spec fn spec_saturate_i64(x: int) -> int {
    if x > i64::MAX {
        i64::MAX as int
    } else if x < i64::MIN {
        i64::MIN as int
    } else {
        x
    }
}

/// A `usize` read as `i64`, or `i64::MAX` when it does not fit.
pub open spec fn spec_i64_or_max(n: int) -> int {
    if n <= i64::MAX { n } else { i64::MAX as int }
}

/// The target position of a seek, or `None` for an unknown `whence`.
pub open spec fn spec_seek_target(len: int, pos: int, offset: i64, whence: i32) -> Option<int> {
    if whence == SEEK_SET {
        Some(offset as int)
    } else if whence == SEEK_CUR {
        Some(spec_saturate_i64(spec_i64_or_max(pos) + offset))
    } else if whence == SEEK_END {
        Some(spec_saturate_i64(spec_i64_or_max(len) + offset))
    } else {
        None
    }
}

/// The position stored after a successful seek to `target`.
pub open spec fn spec_stored_pos(target: int) -> int {
    if target <= usize::MAX { target } else { usize::MAX as int }
}

/// The outcome of a seek on a buffer of `len` bytes positioned at `pos`.
pub open spec fn spec_seek(len: int, pos: int, offset: i64, whence: i32) -> Result<i64, SeekError> {
    match spec_seek_target(len, pos, offset, whence) {
        None => Err(SeekError::InvalidWhence),
        Some(t) => if t < 0 {
            Err(SeekError::NegativePosition)
        } else {
            let p = spec_stored_pos(t);
            Ok((if p <= i64::MAX { p } else { -1 }) as i64)
        },
    }
}

/// `a + b` saturating at the bounds of `i64`.
fn saturating_add_i64(a: i64, b: i64) -> (r: i64)
    ensures
        r == spec_saturate_i64(a + b),
{
    let s: i128 = a as i128 + b as i128;
    if s > 0x7FFF_FFFF_FFFF_FFFFi128 {
        0x7FFF_FFFF_FFFF_FFFFi64
    } else if s < -0x8000_0000_0000_0000i128 {
        -0x8000_0000_0000_0000i64
    } else {
        s as i64
    }
}

/// A `usize` as `i64`, or `i64::MAX` when it does not fit.
fn usize_to_i64_or_max(n: usize) -> (r: i64)
    ensures
        r == spec_i64_or_max(n as int),
{
    if n as u128 <= 0x7FFF_FFFF_FFFF_FFFFu128 {
        n as i64
    } else {
        0x7FFF_FFFF_FFFF_FFFFi64
    }
}

impl SqData {
    /// An empty data object positioned at its start.
    pub fn new() -> (d: SqData)
        ensures
            d.buf@ == Seq::<u8>::empty(),
            d.pos == 0,
    {
        SqData { buf: Vec::new(), pos: 0 }
    }

    /// A data object holding a copy of `bytes`, positioned at its start.
    pub fn from_mem(bytes: &[u8]) -> (d: SqData)
        ensures
            d.buf@ == bytes@,
            d.pos == 0,
    {
        SqData { buf: vstd::slice::slice_to_vec(bytes), pos: 0 }
    }

    /// A data object that takes ownership of `buf`, positioned at its start.
    pub fn from_vec(buf: Vec<u8>) -> (d: SqData)
        ensures
            d.buf@ == buf@,
            d.pos == 0,
    {
        SqData { buf, pos: 0 }
    }

    /// Read up to `size` bytes from the current position and advance past them.
    pub fn read(&mut self, size: usize) -> (r: Vec<u8>)
        ensures
            r@ == spec_read(old(self).buf@, old(self).pos as int, size as int),
            r@.len() == spec_read_count(old(self).buf@.len() as int, old(self).pos as int, size as int),
            final(self).buf@ == old(self).buf@,
            final(self).pos == old(self).pos + r@.len(),
    {
        let available: usize = if self.pos <= self.buf.len() { self.buf.len() - self.pos } else { 0 };
        let count: usize = if available < size { available } else { size };
        let mut out: Vec<u8> = Vec::new();
        if count == 0 {
            assert(out@ =~= spec_read(self.buf@, self.pos as int, size as int));
            return out;
        }
        let mut i: usize = 0;
        while i < count
            invariant
                count <= available,
                self.pos <= self.buf@.len(),
                self.pos + count <= self.buf.len(),
                available == spec_available(self.buf@.len() as int, self.pos as int),
                i <= count,
                out@ == self.buf@.subrange(self.pos as int, self.pos + i),
            decreases count - i,
        {
            out.push(self.buf[self.pos + i]);
            i = i + 1;
            assert(out@ =~= self.buf@.subrange(self.pos as int, self.pos + i));
        }
        self.pos = self.pos + count;
        out
    }

    /// Write `src` at the current position (growing the buffer as needed) and
    /// advance past it; returns the number of bytes written.
    pub fn write(&mut self, src: &[u8]) -> (r: usize)
        requires
            old(self).pos + src@.len() <= usize::MAX,
        ensures
            r == src@.len(),
            final(self).buf@ == spec_write(old(self).buf@, old(self).pos as int, src@),
            final(self).pos == old(self).pos + src@.len(),
    {
        let ghost old_buf = self.buf@;
        let pos = self.pos;
        let end = pos + src.len();
        while self.buf.len() < end
            invariant
                end == pos + src@.len(),
                old_buf.len() <= self.buf@.len(),
                self.buf@.len() <= (if end > old_buf.len() { end as int } else { old_buf.len() as int }),
                forall|i: int| 0 <= i < old_buf.len() ==> self.buf@[i] == old_buf[i],
                forall|i: int| old_buf.len() <= i < self.buf@.len() ==> self.buf@[i] == 0u8,
            decreases end - self.buf@.len(),
        {
            self.buf.push(0u8);
        }
        let mut i: usize = 0;
        while i < src.len()
            invariant
                end == pos + src@.len(),
                end <= self.buf@.len(),
                self.buf@.len() == (if end > old_buf.len() { end as int } else { old_buf.len() as int }),
                i <= src@.len(),
                forall|k: int|
                    0 <= k < self.buf@.len() ==> #[trigger] self.buf@[k] == (if pos <= k && k < pos + i {
                        src@[k - pos]
                    } else if k < old_buf.len() {
                        old_buf[k]
                    } else {
                        0u8
                    }),
            decreases src@.len() - i,
        {
            self.buf.set(pos + i, src[i]);
            i = i + 1;
        }
        self.pos = end;
        assert(self.buf@ =~= spec_write(old_buf, pos as int, src@));
        src.len()
    }

    /// Move the position as POSIX `lseek` does; returns the new position.
    pub fn seek(&mut self, offset: i64, whence: i32) -> (r: Result<i64, SeekError>)
        ensures
            r == spec_seek(old(self).buf@.len() as int, old(self).pos as int, offset, whence),
            final(self).buf@ == old(self).buf@,
            r is Ok ==> final(self).pos == spec_stored_pos(
                spec_seek_target(old(self).buf@.len() as int, old(self).pos as int, offset, whence)->0,
            ),
            r is Err ==> final(self).pos == old(self).pos,
    {
        let new_pos: i64 = if whence == SEEK_SET {
            offset
        } else if whence == SEEK_CUR {
            saturating_add_i64(usize_to_i64_or_max(self.pos), offset)
        } else if whence == SEEK_END {
            saturating_add_i64(usize_to_i64_or_max(self.buf.len()), offset)
        } else {
            return Err(SeekError::InvalidWhence);
        };
        if new_pos < 0 {
            return Err(SeekError::NegativePosition);
        }
        self.pos = if new_pos as u128 <= usize::MAX as u128 { new_pos as usize } else { usize::MAX };
        if self.pos as u128 <= 0x7FFF_FFFF_FFFF_FFFFu128 {
            Ok(self.pos as i64)
        } else {
            Ok(-1)
        }
    }

    /// Reset the position to the beginning of the buffer.
    pub fn rewind(&mut self)
        ensures
            final(self).buf@ == old(self).buf@,
            final(self).pos == 0,
    {
        self.pos = 0;
    }

    /// Give up the data object, returning its contents followed by a NUL byte
    /// together with the number of data bytes.
    pub fn release_and_get_mem(self) -> (r: (Vec<u8>, usize))
        ensures
            r.0@ == self.buf@.push(0u8),
            r.1 == self.buf@.len(),
    {
        let len = self.buf.len();
        let mut out = self.buf;
        out.push(0u8);
        (out, len)
    }
}

/// What a read gives back of a write: writing `src` at `pos` and then
/// reading `src.len()` bytes from `pos` yields `src`.
pub proof fn lemma_read_after_write(buf: Seq<u8>, pos: int, src: Seq<u8>)
    requires
        0 <= pos,
    ensures
        spec_read(spec_write(buf, pos, src), pos, src.len() as int) == src,
{
    let w = spec_write(buf, pos, src);
    assert(spec_read(w, pos, src.len() as int) =~= src);
}

/// A write leaves every byte outside the written range as it was (bytes
/// past the old end read as zero).
pub proof fn lemma_write_preserves_rest(buf: Seq<u8>, pos: int, src: Seq<u8>, i: int)
    requires
        0 <= pos,
        0 <= i < buf.len(),
        !(pos <= i < pos + src.len()),
    ensures
        spec_write(buf, pos, src)[i] == buf[i],
{
}

/// Seeking to a non-negative offset from the start always succeeds and
/// places the position there.
pub proof fn lemma_seek_set(len: int, pos: int, offset: i64)
    requires
        offset >= 0,
        offset <= usize::MAX,
    ensures
        spec_seek(len, pos, offset, SEEK_SET) == Ok::<i64, SeekError>(offset),
        spec_stored_pos(spec_seek_target(len, pos, offset, SEEK_SET)->0) == offset,
{
}

/// Writing into an empty data object and then releasing it hands back
/// exactly what was written, followed by a NUL byte.
pub proof fn lemma_write_then_release(src: Seq<u8>)
    ensures
        spec_write(Seq::empty(), 0, src).push(0u8) == src.push(0u8),
{
    assert(spec_write(Seq::empty(), 0, src) =~= src);
}

/// Reading the whole buffer from the start returns all of its contents.
pub proof fn lemma_read_all_from_start(buf: Seq<u8>)
    ensures
        spec_read(buf, 0, buf.len() as int) == buf,
{
    assert(spec_read(buf, 0, buf.len() as int) =~= buf);
}

} // verus!
