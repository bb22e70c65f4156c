//! The open large object: which remote call each stream operation makes,
//! and the one-time close.
use vstd::prelude::*;
use crate::call::{Call, LoError, SEEK_CUR, SEEK_END, SEEK_SET};
use crate::mode::Mode;

verus! {

/// The most bytes one `loread` or `lowrite` call can carry: `i32::MAX`.
pub const MAX_TRANSFER: usize = 0x7fff_ffff;

/// Where a seek is measured from, with the offset.
#[derive(Debug, Clone, Copy, PartialEq, Eq, Structural)]
pub enum SeekFrom {
    /// From the start of the object.
    Start(u64),
    /// From the current position.
    Current(i64),
    /// From the end of the object.
    End(i64),
}

/// What a handle holds: the descriptor the server gave, whether the 64-bit
/// calls are used, and whether it has been closed.
#[derive(Debug, Clone, Copy, PartialEq, Eq, Structural)]
pub struct HandleState {
    pub fd: i32,
    pub has_64: bool,
    pub finished: bool,
}

/// An open large object.
#[derive(Debug)]
pub struct LargeObject {
    fd: i32,
    has_64: bool,
    finished: bool,
}

/// The call that opens object `oid` in `mode`.
pub fn open_call(oid: u32, mode: Mode) -> (r: Call)
    ensures
        r == (Call::Open { oid, flags: mode.spec_flags() }),
{
    Call::Open { oid, flags: mode.to_i32() }
}

/// Whence code and offset of a seek.
pub open spec fn seek_args(pos: SeekFrom) -> (i32, int) {
    match pos {
        SeekFrom::Start(p) => (SEEK_SET, p as int),
        SeekFrom::Current(p) => (SEEK_CUR, p as int),
        SeekFrom::End(p) => (SEEK_END, p as int),
    }
}

pub open spec fn fits_i32(v: int) -> bool {
    i32::MIN <= v <= i32::MAX
}

/// The call a seek makes, or why none is made.
pub open spec fn spec_seek(h: HandleState, pos: SeekFrom) -> Result<Call, LoError> {
    let (whence, offset) = seek_args(pos);
    if offset > i64::MAX {
        Err(LoError::InvalidArgument)
    } else if h.has_64 {
        Ok(Call::Seek64 { fd: h.fd, offset: offset as i64, whence })
    } else if fits_i32(offset) {
        Ok(Call::Seek { fd: h.fd, offset: offset as i32, whence })
    } else {
        Err(LoError::InvalidArgument)
    }
}

/// The call that reports the position: a seek by zero from the current one.
pub open spec fn spec_tell(h: HandleState) -> Call {
    if h.has_64 {
        Call::Seek64 { fd: h.fd, offset: 0, whence: SEEK_CUR }
    } else {
        Call::Seek { fd: h.fd, offset: 0, whence: SEEK_CUR }
    }
}

/// The call a truncation makes, or why none is made.
pub open spec fn spec_truncate(h: HandleState, len: i64) -> Result<Call, LoError> {
    if h.has_64 {
        Ok(Call::Truncate64 { fd: h.fd, len })
    } else if fits_i32(len as int) {
        Ok(Call::Truncate { fd: h.fd, len: len as i32 })
    } else {
        Err(LoError::InvalidArgument)
    }
}

/// The number of bytes one read asks for, for a buffer of `buf_len` bytes.
pub open spec fn read_len(buf_len: int) -> int {
    if buf_len <= MAX_TRANSFER {
        buf_len
    } else {
        MAX_TRANSFER as int
    }
}

/// The call that reads into a buffer of `buf_len` bytes.
pub open spec fn spec_read(h: HandleState, buf_len: int) -> Call {
    Call::Read { fd: h.fd, len: read_len(buf_len) as i32 }
}

/// Where the chunk that starts at `written` of a `len`-byte buffer ends.
pub open spec fn chunk_end(len: int, written: int) -> int {
    if len - written <= MAX_TRANSFER {
        len
    } else {
        written + MAX_TRANSFER
    }
}

/// The next write of a `len`-byte buffer of which `written` bytes are sent;
/// none once all are.
pub open spec fn spec_write_chunk(h: HandleState, len: int, written: int) -> Option<Call> {
    if written >= len {
        None
    } else {
        Some(Call::Write { fd: h.fd, start: written as usize, end: chunk_end(len, written) as usize })
    }
}

/// The handle after a close, and the close call if one is due.
pub open spec fn spec_close(h: HandleState) -> (HandleState, Option<Call>) {
    if h.finished {
        (h, None)
    } else {
        (HandleState { finished: true, ..h }, Some(Call::Close { fd: h.fd }))
    }
}

impl View for LargeObject {
    type V = HandleState;

    closed spec fn view(&self) -> HandleState {
        HandleState { fd: self.fd, has_64: self.has_64, finished: self.finished }
    }
}

impl LargeObject {
    /// A handle on the descriptor `fd` that `lo_open` returned, using the
    /// 64-bit calls where `has_64` holds.
    pub fn new(fd: i32, has_64: bool) -> (r: LargeObject)
        ensures
            r@ == (HandleState { fd, has_64, finished: false }),
    {
        LargeObject { fd, has_64, finished: false }
    }

    /// Returns the descriptor of the opened object.
    pub fn fd(&self) -> (r: i32)
        ensures
            r == self@.fd,
    {
        self.fd
    }

    /// Whether the 64-bit calls are used.
    pub fn has_64(&self) -> (r: bool)
        ensures
            r == self@.has_64,
    {
        self.has_64
    }

    /// Whether the handle has been closed.
    pub fn is_finished(&self) -> (r: bool)
        ensures
            r == self@.finished,
    {
        self.finished
    }

    /// The call that reads into a buffer of `buf_len` bytes: it asks for
    /// at most `i32::MAX` bytes.
    pub fn read_call(&self, buf_len: usize) -> (r: Call)
        ensures
            r == spec_read(self@, buf_len as int),
    {
        let len: usize = if buf_len <= MAX_TRANSFER {
            buf_len
        } else {
            MAX_TRANSFER
        };
        Call::Read { fd: self.fd, len: len as i32 }
    }

    /// The next call that writes a `len`-byte buffer of which `written`
    /// bytes are sent, or `None` once all are. Chunks hold at most
    /// `i32::MAX` bytes.
    pub fn write_call(&self, len: usize, written: usize) -> (r: Option<Call>)
        requires
            written <= len,
        ensures
            r == spec_write_chunk(self@, len as int, written as int),
    {
        if written >= len {
            None
        } else {
            let end: usize = if len - written <= MAX_TRANSFER {
                len
            } else {
                written + MAX_TRANSFER
            };
            Some(Call::Write { fd: self.fd, start: written, end })
        }
    }

    /// The call that moves the position. Without the 64-bit calls the
    /// offset must fit in an `i32`; a start offset must fit in an `i64`.
    pub fn seek(&self, pos: SeekFrom) -> (r: Result<Call, LoError>)
        ensures
            r == spec_seek(self@, pos),
    {
        let (whence, offset): (i32, i64) = match pos {
            SeekFrom::Start(p) => {
                if p > i64::MAX as u64 {
                    return Err(LoError::InvalidArgument);
                }
                (SEEK_SET, p as i64)
            },
            SeekFrom::Current(p) => (SEEK_CUR, p),
            SeekFrom::End(p) => (SEEK_END, p),
        };
        if self.has_64 {
            Ok(Call::Seek64 { fd: self.fd, offset, whence })
        } else if i32::MIN as i64 <= offset && offset <= i32::MAX as i64 {
            Ok(Call::Seek { fd: self.fd, offset: offset as i32, whence })
        } else {
            Err(LoError::InvalidArgument)
        }
    }

    /// The call that reports the current position.
    pub fn tell(&self) -> (r: Call)
        ensures
            r == spec_tell(self@),
            spec_seek(self@, SeekFrom::Current(0)) == Ok::<Call, LoError>(r),
    {
        if self.has_64 {
            Call::Seek64 { fd: self.fd, offset: 0, whence: SEEK_CUR }
        } else {
            Call::Seek { fd: self.fd, offset: 0, whence: SEEK_CUR }
        }
    }

    /// The call that truncates or extends the object to `len` bytes.
    /// Without the 64-bit calls `len` must fit in an `i32`.
    pub fn truncate(&self, len: i64) -> (r: Result<Call, LoError>)
        ensures
            r == spec_truncate(self@, len),
    {
        if self.has_64 {
            Ok(Call::Truncate64 { fd: self.fd, len })
        } else if i32::MIN as i64 <= len && len <= i32::MAX as i64 {
            Ok(Call::Truncate { fd: self.fd, len: len as i32 })
        } else {
            Err(LoError::InvalidArgument)
        }
    }

    /// Marks the handle closed and returns the close call, the first time
    /// only; afterwards returns `None` and changes nothing.
    pub fn close_call(&mut self) -> (r: Option<Call>)
        ensures
            (final(self)@, r) == spec_close(old(self)@),
    {
        if self.finished {
            return None;
        }
        self.finished = true;
        Some(Call::Close { fd: self.fd })
    }

    /// Consumes the handle, returning the close call that is still due.
    pub fn finish(self) -> (r: Option<Call>)
        ensures
            r == spec_close(self@).1,
    {
        let mut h = self;
        h.close_call()
    }
}

/// Copies the bytes a read returned into the front of `buf`, as many as fit,
/// and returns their count.
pub fn copy_read_reply(buf: &mut [u8], data: &[u8]) -> (n: usize)
    ensures
        n == if data@.len() <= old(buf)@.len() { data@.len() } else { old(buf)@.len() },
        final(buf)@ == data@.subrange(0, n as int) + old(buf)@.subrange(
            n as int,
            old(buf)@.len() as int,
        ),
{
    let n: usize = if data.len() <= buf.len() {
        data.len()
    } else {
        buf.len()
    };
    let mut i: usize = 0;
    while i < n
        invariant
            0 <= i <= n,
            n <= data@.len(),
            n <= old(buf)@.len(),
            buf@.len() == old(buf)@.len(),
            forall|k: int| 0 <= k < i ==> buf@[k] == data@[k],
            forall|k: int| n <= k < buf@.len() ==> buf@[k] == old(buf)@[k],
        decreases n - i,
    {
        buf[i] = data[i];
        i = i + 1;
    }
    assert(buf@ =~= data@.subrange(0, n as int) + old(buf)@.subrange(
        n as int,
        old(buf)@.len() as int,
    ));
    n
}

/// The position a seek reported, which the server never gives negative.
pub fn position_from_reply(v: i64) -> (r: Result<u64, LoError>)
    ensures
        v >= 0 ==> r == Ok::<u64, LoError>(v as u64),
        v < 0 ==> r == Err::<u64, LoError>(LoError::Protocol),
{
    if v >= 0 {
        Ok(v as u64)
    } else {
        Err(LoError::Protocol)
    }
}

} // verus!
