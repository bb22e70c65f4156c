//! What the server does with each call on an open object, as the large-object
//! documentation describes it, and the laws the handle's calls obey there.
use vstd::prelude::*;
use crate::call::{Call, SEEK_CUR, SEEK_END, SEEK_SET};
use crate::handle::{
    chunk_end, read_len, spec_close, spec_read, spec_seek, spec_tell, spec_truncate,
    spec_write_chunk, HandleState, SeekFrom,
};

verus! {

/// An open object as the server holds it: its contents, the position of
/// the descriptor, and whether the descriptor was opened for writing.
pub struct ObjectState {
    pub data: Seq<u8>,
    pub pos: int,
    pub writable: bool,
}

/// The largest size of a large object, and so the furthest position a seek,
/// a write or a truncation can reach: 2^31 - 1 blocks of 2048 bytes.
pub open spec fn max_object_size() -> int {
    4398046509056
}

/// What a successful call answers.
pub enum Reply {
    /// The call returns nothing of interest.
    Done,
    /// The position after a seek.
    Position(int),
    /// The bytes a read returned.
    Bytes(Seq<u8>),
}

pub open spec fn zeros(n: int) -> Seq<u8> {
    Seq::new(n as nat, |i: int| 0u8)
}

/// `data` cut to `len` bytes, or extended to it with zero bytes.
pub open spec fn resized(data: Seq<u8>, len: int) -> Seq<u8> {
    if len <= data.len() {
        data.subrange(0, len)
    } else {
        data + zeros(len - data.len())
    }
}

/// `data` with `bytes` written at `pos`; a gap before `pos` reads as zeros.
pub open spec fn overwrite(data: Seq<u8>, pos: int, bytes: Seq<u8>) -> Seq<u8> {
    let end = pos + bytes.len();
    let tail = if end < data.len() {
        data.subrange(end, data.len() as int)
    } else {
        Seq::empty()
    };
    resized(data, pos) + bytes + tail
}

/// The position a seek lands on, where the server accepts it: not negative
/// and at most `limit`.
pub open spec fn seek_to(s: ObjectState, offset: int, whence: i32, limit: int) -> Option<
    (ObjectState, Reply),
> {
    let base = if whence == SEEK_SET {
        0
    } else if whence == SEEK_CUR {
        s.pos
    } else {
        s.data.len() as int
    };
    let p = base + offset;
    if (whence == SEEK_SET || whence == SEEK_CUR || whence == SEEK_END) && 0 <= p <= limit {
        Some((ObjectState { pos: p, ..s }, Reply::Position(p)))
    } else {
        None
    }
}

/// The server's answer to `c` on the open object `s`, where `buf` is the
/// caller's buffer that a write takes its bytes from; `None` where the
/// server reports an error. Writes and truncations need a descriptor opened
/// for writing; no position or size goes beyond `max_object_size()`.
pub open spec fn serve(s: ObjectState, c: Call, buf: Seq<u8>) -> Option<(ObjectState, Reply)> {
    match c {
        Call::Read { len, .. } => {
            let avail = if s.pos < s.data.len() {
                s.data.len() - s.pos
            } else {
                0
            };
            let n = if len <= avail {
                len as int
            } else {
                avail
            };
            if len < 0 {
                None
            } else {
                Some(
                    (
                        ObjectState { pos: s.pos + n, ..s },
                        Reply::Bytes(
                            if s.pos < s.data.len() {
                                s.data.subrange(s.pos, s.pos + n)
                            } else {
                                Seq::empty()
                            },
                        ),
                    ),
                )
            }
        },
        Call::Write { start, end, .. } => {
            let bytes = buf.subrange(start as int, end as int);
            if s.writable && start <= end <= buf.len() && s.pos + bytes.len()
                <= max_object_size() {
                Some(
                    (
                        ObjectState {
                            data: overwrite(s.data, s.pos, bytes),
                            pos: s.pos + bytes.len(),
                            writable: s.writable,
                        },
                        Reply::Done,
                    ),
                )
            } else {
                None
            }
        },
        Call::Seek { offset, whence, .. } => seek_to(s, offset as int, whence, i32::MAX as int),
        Call::Seek64 { offset, whence, .. } => seek_to(s, offset as int, whence, max_object_size()),
        Call::Truncate { len, .. } => if !s.writable || len < 0 {
            None
        } else {
            Some((ObjectState { data: resized(s.data, len as int), ..s }, Reply::Done))
        },
        Call::Truncate64 { len, .. } => if !s.writable || len < 0 || len > max_object_size() {
            None
        } else {
            Some((ObjectState { data: resized(s.data, len as int), ..s }, Reply::Done))
        },
        _ => None,
    }
}

/// The object after all of `buf` from `written` on is sent by the handle's
/// chunked writes; `None` where the server refuses one.
pub open spec fn write_all(h: HandleState, s: ObjectState, buf: Seq<u8>, written: int) -> Option<
    ObjectState,
>
    decreases buf.len() - written,
{
    match spec_write_chunk(h, buf.len() as int, written) {
        None => Some(s),
        Some(c) => match serve(s, c, buf) {
            Some((s1, _)) => if written < buf.len() {
                write_all(h, s1, buf, chunk_end(buf.len() as int, written))
            } else {
                None
            },
            None => None,
        },
    }
}

/// The object after reads into buffers of the lengths `lens`, one after
/// the other, and the bytes they returned, in order.
pub open spec fn read_each(h: HandleState, s: ObjectState, lens: Seq<usize>) -> (
    ObjectState,
    Seq<u8>,
)
    decreases lens.len(),
{
    if lens.len() == 0 {
        (s, Seq::empty())
    } else {
        match serve(s, spec_read(h, lens[0] as int), Seq::empty()) {
            Some((s1, Reply::Bytes(b))) => {
                let (s2, rest) = read_each(h, s1, lens.drop_first());
                (s2, b + rest)
            },
            _ => (s, Seq::empty()),
        }
    }
}

proof fn lemma_read_each_contiguous(h: HandleState, s: ObjectState, lens: Seq<usize>)
    requires
        0 <= s.pos <= s.data.len(),
    ensures
        ({
            let (s2, bytes) = read_each(h, s, lens);
            &&& s2.data == s.data
            &&& s2.writable == s.writable
            &&& s.pos <= s2.pos <= s.data.len()
            &&& bytes == s.data.subrange(s.pos, s2.pos)
        }),
    decreases lens.len(),
{
    if lens.len() == 0 {
        assert(s.data.subrange(s.pos, s.pos) =~= Seq::<u8>::empty());
    } else {
        let avail = s.data.len() - s.pos;
        let n = if read_len(lens[0] as int) <= avail {
            read_len(lens[0] as int)
        } else {
            avail
        };
        let s1 = ObjectState { pos: s.pos + n, ..s };
        lemma_read_each_contiguous(h, s1, lens.drop_first());
        let (s2, rest) = read_each(h, s1, lens.drop_first());
        let b = if s.pos < s.data.len() {
            s.data.subrange(s.pos, s.pos + n)
        } else {
            Seq::empty()
        };
        assert(b + rest =~= s.data.subrange(s.pos, s2.pos));
    }
}

/// A seek that the handle makes and the server accepts answers the new
/// position, and a tell right after reports that same position.
pub proof fn lemma_seek_then_tell(h: HandleState, s: ObjectState, pos: SeekFrom, buf: Seq<u8>)
    requires
        spec_seek(h, pos) is Ok,
        serve(s, spec_seek(h, pos)->Ok_0, buf) is Some,
    ensures
        ({
            let (s1, reply) = serve(s, spec_seek(h, pos)->Ok_0, buf)->Some_0;
            &&& reply == Reply::Position(s1.pos)
            &&& serve(s1, spec_tell(h), buf) == Some((s1, Reply::Position(s1.pos)))
        }),
{
}

proof fn lemma_write_all_appends(
    h: HandleState,
    d: Seq<u8>,
    s: ObjectState,
    buf: Seq<u8>,
    written: int,
)
    requires
        0 <= written <= buf.len() <= usize::MAX,
        d.len() + buf.len() <= max_object_size(),
        s.writable,
        s.data == d + buf.subrange(0, written),
        s.pos == d.len() + written,
    ensures
        write_all(h, s, buf, written) == Some(
            ObjectState { data: d + buf, pos: (d.len() + buf.len()) as int, writable: true },
        ),
    decreases buf.len() - written,
{
    if written == buf.len() {
        assert(buf.subrange(0, written) =~= buf);
    } else {
        let e = chunk_end(buf.len() as int, written);
        let c = spec_write_chunk(h, buf.len() as int, written)->Some_0;
        let bytes = buf.subrange(written, e);
        assert(resized(s.data, s.pos) =~= s.data);
        assert(overwrite(s.data, s.pos, bytes) =~= d + buf.subrange(0, e));
        lemma_write_all_appends(
            h,
            d,
            ObjectState { data: d + buf.subrange(0, e), pos: d.len() + e, writable: true },
            buf,
            e,
        );
    }
}

/// Writing a buffer to an empty object through the handle's chunked writes,
/// on a descriptor opened for writing, leaves exactly that buffer in it; a
/// descriptor opened for reading afterwards reads it back from the start,
/// as much as one read asks for.
pub proof fn lemma_write_read_round_trip(h: HandleState, reader: HandleState, buf: Seq<u8>)
    requires
        buf.len() <= usize::MAX,
        buf.len() <= max_object_size(),
    ensures
        write_all(h, ObjectState { data: Seq::empty(), pos: 0, writable: true }, buf, 0) == Some(
            ObjectState { data: buf, pos: buf.len() as int, writable: true },
        ),
        serve(
            ObjectState { data: buf, pos: 0, writable: false },
            spec_read(reader, buf.len() as int),
            Seq::empty(),
        ) == Some(
            (
                ObjectState { data: buf, pos: read_len(buf.len() as int), writable: false },
                Reply::Bytes(buf.subrange(0, read_len(buf.len() as int))),
            ),
        ),
{
    let empty = Seq::<u8>::empty();
    assert(empty + buf.subrange(0, 0) =~= empty);
    lemma_write_all_appends(h, empty, ObjectState { data: empty, pos: 0, writable: true }, buf, 0);
    assert(empty + buf =~= buf);
}

/// After a truncation that the handle makes and the server accepts, the
/// object holds its old contents cut or zero-padded to the new length, and
/// a read from the start returns them, as much as one read asks for.
pub proof fn lemma_truncate_then_read(
    h: HandleState,
    s: ObjectState,
    len: i64,
    buf_len: usize,
    buf: Seq<u8>,
)
    requires
        spec_truncate(h, len) is Ok,
        serve(s, spec_truncate(h, len)->Ok_0, buf) is Some,
    ensures
        ({
            let s1 = serve(s, spec_truncate(h, len)->Ok_0, buf)->Some_0.0;
            let n = if read_len(buf_len as int) <= len {
                read_len(buf_len as int)
            } else {
                len as int
            };
            &&& s1.data == resized(s.data, len as int)
            &&& s1.data.len() == len
            &&& serve(
                ObjectState { pos: 0, ..s1 },
                spec_read(h, buf_len as int),
                buf,
            ) == Some(
                (
                    ObjectState { pos: n, ..s1 },
                    Reply::Bytes(resized(s.data, len as int).subrange(0, n)),
                ),
            )
        }),
{
    assert(resized(s.data, len as int).subrange(0, 0) =~= Seq::<u8>::empty());
}

/// Closing a handle twice makes one close call, the first time, and the
/// second close makes none; closing a closed handle makes none at all.
pub proof fn lemma_close_once(h: HandleState)
    ensures
        ({
            let (h1, c1) = spec_close(h);
            let (h2, c2) = spec_close(h1);
            &&& c1 == (if h.finished {
                None
            } else {
                Some(Call::Close { fd: h.fd })
            })
            &&& c2 is None
            &&& h2 == h1
            &&& h1.finished
        }),
{
}


/// Writing a buffer to an empty object through the handle's chunked writes,
/// on a descriptor opened for writing, then reading through a descriptor
/// opened for reading, into buffers of any lengths one after the other until
/// a read into a non-empty buffer returns no bytes, gives back exactly the
/// bytes written, in order.
pub proof fn lemma_write_read_back(
    h: HandleState,
    reader: HandleState,
    buf: Seq<u8>,
    lens: Seq<usize>,
    last: usize,
)
    requires
        buf.len() <= usize::MAX,
        buf.len() <= max_object_size(),
        last > 0,
        ({
            let s2 = read_each(reader, ObjectState { data: buf, pos: 0, writable: false }, lens).0;
            serve(s2, spec_read(reader, last as int), Seq::empty()) == Some(
                (s2, Reply::Bytes(Seq::<u8>::empty())),
            )
        }),
    ensures
        write_all(h, ObjectState { data: Seq::empty(), pos: 0, writable: true }, buf, 0) == Some(
            ObjectState { data: buf, pos: buf.len() as int, writable: true },
        ),
        read_each(reader, ObjectState { data: buf, pos: 0, writable: false }, lens).1 == buf,
{
    lemma_write_read_round_trip(h, reader, buf);
    let s0 = ObjectState { data: buf, pos: 0, writable: false };
    lemma_read_each_contiguous(reader, s0, lens);
    let s2 = read_each(reader, s0, lens).0;
    if s2.pos < buf.len() {
        let n = if read_len(last as int) <= buf.len() - s2.pos {
            read_len(last as int)
        } else {
            buf.len() - s2.pos
        };
        assert(buf.subrange(s2.pos, s2.pos + n).len() > 0);
    }
    assert(buf.subrange(0, buf.len() as int) =~= buf);
}

} // verus!
