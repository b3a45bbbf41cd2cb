use vstd::prelude::*;
use circbuf::{CircBuf, CircBufError};

verus! {

/// `circbuf::CircBuf`, a circular byte queue, declared opaque: its fields stay hidden.
#[verifier::external_type_specification]
#[verifier::external_body]
pub struct ExCircBuf(CircBuf);

/// `circbuf::CircBufError`, declared opaque.
#[verifier::external_type_specification]
#[verifier::external_body]
pub struct ExCircBufError(CircBufError);

/// `std::io::Error`, declared opaque.
#[verifier::external_type_specification]
#[verifier::external_body]
pub struct ExIoError(std::io::Error);

/// What a fallible `circbuf::CircBuf` operation returns.
pub type CircBufResult<T> = Result<T, CircBufError>;

/// The bytes queued in a `circbuf::CircBuf`, oldest first: the storage
/// from the read cursor round to the write cursor.
pub uninterp spec fn circbuf_bytes(buf: CircBuf) -> Seq<u8>;

/// The number of bytes of storage of a `circbuf::CircBuf`.
pub uninterp spec fn circbuf_storage_len(buf: CircBuf) -> nat;

/// How many of the queued bytes of a `circbuf::CircBuf` lie between the read
/// cursor and the end of the storage: the length of the first piece that
/// `CircBuf::get_bytes` hands out.
pub uninterp spec fn circbuf_first_len(buf: CircBuf) -> nat;

/// The free room of a `circbuf::CircBuf`: the storage bytes that follow the
/// queued ones, from the write cursor round to just before the read cursor,
/// in the order in which they would be queued.
pub uninterp spec fn circbuf_room(buf: CircBuf) -> Seq<u8>;

/// How many bytes a buffer can queue at most (`CircBuf::cap`): one less than
/// its storage.
pub open spec fn circbuf_capacity(buf: CircBuf) -> int {
    circbuf_storage_len(buf) - 1
}

/// A buffer with storage, queueing no more bytes than it can hold, whose free
/// room is the rest of what it can hold.
pub open spec fn circbuf_wf(buf: CircBuf) -> bool {
    &&& circbuf_storage_len(buf) >= 1
    &&& circbuf_bytes(buf).len() <= circbuf_capacity(buf)
    &&& circbuf_room(buf).len() == circbuf_capacity(buf) - circbuf_bytes(buf).len()
}

/// `n` is a power of two.
pub open spec fn is_power_of_two(n: usize) -> bool {
    n > 0 && n & ((n - 1) as usize) == 0
}

/// `CircBuf::with_capacity`: for a power of two `cap`, an empty buffer with
/// `cap` bytes of storage.
#[verifier::external_body]
pub(crate) fn circbuf_with_capacity(cap: usize) -> (r: CircBufResult<CircBuf>)
    requires
        is_power_of_two(cap),
        cap <= 0x100_0000,
    ensures
        r is Ok,
        circbuf_bytes(r->Ok_0).len() == 0,
        circbuf_storage_len(r->Ok_0) == cap,
        circbuf_room(r->Ok_0).len() == cap - 1,
{
    CircBuf::with_capacity(cap)
}

/// `CircBuf::cap`: how many bytes the buffer can queue at most.
#[verifier::external_body]
pub(crate) fn circbuf_cap(buf: &CircBuf) -> (r: usize)
    requires
        circbuf_wf(*buf),
    ensures
        r == circbuf_capacity(*buf),
{
    buf.cap()
}

/// `CircBuf::len`: how many bytes are queued.
#[verifier::external_body]
pub(crate) fn circbuf_len(buf: &CircBuf) -> (r: usize)
    ensures
        r == circbuf_bytes(*buf).len(),
{
    buf.len()
}

/// `CircBuf::is_empty`: whether no byte is queued.
#[verifier::external_body]
pub(crate) fn circbuf_is_empty(buf: &CircBuf) -> (r: bool)
    ensures
        r == (circbuf_bytes(*buf).len() == 0),
{
    buf.is_empty()
}

/// `CircBuf::get_bytes`: the queued bytes in two slices, the first of which
/// runs from the read cursor to the write cursor or to the end of the storage.
#[verifier::external_body]
pub(crate) fn circbuf_get_bytes(buf: &CircBuf) -> (r: (&[u8], &[u8]))
    requires
        circbuf_wf(*buf),
    ensures
        r.0@ + r.1@ == circbuf_bytes(*buf),
        r.0@.len() == circbuf_first_len(*buf),
        circbuf_bytes(*buf).len() > 0 ==> r.0@.len() > 0,
{
    let [first, second] = buf.get_bytes();
    (first, second)
}

/// `CircBuf::advance_read`: drops the `num` oldest bytes, or refuses when
/// fewer are queued.
#[verifier::external_body]
pub(crate) fn circbuf_advance_read(buf: &mut CircBuf, num: usize) -> (r: CircBufResult<()>)
    requires
        circbuf_wf(*old(buf)),
    ensures
        circbuf_wf(*final(buf)),
        circbuf_storage_len(*final(buf)) == circbuf_storage_len(*old(buf)),
        num <= circbuf_bytes(*old(buf)).len() ==> r is Ok && circbuf_bytes(*final(buf))
            == circbuf_bytes(*old(buf)).skip(num as int),
        num > circbuf_bytes(*old(buf)).len() ==> r is Err && circbuf_bytes(*final(buf))
            == circbuf_bytes(*old(buf)) && circbuf_room(*final(buf)) == circbuf_room(*old(buf)),
{
    buf.advance_read(num)
}

/// `CircBuf::advance_write`: queues the first `num` bytes of the free room,
/// or refuses when the room is smaller.
#[verifier::external_body]
pub(crate) fn circbuf_advance_write(buf: &mut CircBuf, num: usize) -> (r: CircBufResult<()>)
    requires
        circbuf_wf(*old(buf)),
    ensures
        circbuf_wf(*final(buf)),
        circbuf_storage_len(*final(buf)) == circbuf_storage_len(*old(buf)),
        num <= circbuf_room(*old(buf)).len() ==> r is Ok && circbuf_bytes(*final(buf))
            == circbuf_bytes(*old(buf)) + circbuf_room(*old(buf)).subrange(0, num as int)
            && circbuf_room(*final(buf)) == circbuf_room(*old(buf)).skip(num as int),
        num > circbuf_room(*old(buf)).len() ==> r is Err && circbuf_bytes(*final(buf))
            == circbuf_bytes(*old(buf)) && circbuf_room(*final(buf)) == circbuf_room(*old(buf)),
{
    buf.advance_write(num)
}

/// `<CircBuf as std::io::Write>::write`: queues as many leading bytes of
/// `data` as there is room for and returns `Ok` with their number; it never
/// returns an error.
#[verifier::external_body]
pub(crate) fn circbuf_write(buf: &mut CircBuf, data: &[u8]) -> (r: std::io::Result<usize>)
    requires
        circbuf_wf(*old(buf)),
    ensures
        circbuf_wf(*final(buf)),
        circbuf_storage_len(*final(buf)) == circbuf_storage_len(*old(buf)),
        r is Ok,
        r->Ok_0 == (if data@.len() <= circbuf_room(*old(buf)).len() {
            data@.len() as int
        } else {
            circbuf_room(*old(buf)).len() as int
        }),
        circbuf_bytes(*final(buf)) == circbuf_bytes(*old(buf)) + data@.subrange(0, r->Ok_0 as int),
{
    std::io::Write::write(buf, data)
}

} // verus!
