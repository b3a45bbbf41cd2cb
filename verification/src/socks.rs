use vstd::prelude::*;
use vstd::utf8::{decode_utf8, valid_utf8};
use byteorder::ByteOrder;
use circbuf::CircBuf;
use crate::circ::{
    circbuf_advance_read, circbuf_advance_write, circbuf_bytes, circbuf_cap, circbuf_capacity,
    circbuf_first_len, circbuf_get_bytes, circbuf_is_empty, circbuf_len, circbuf_room,
    circbuf_storage_len, circbuf_wf, circbuf_with_capacity,
    circbuf_write, is_power_of_two,
};
use crate::slab::Handle;

verus! {

/// Why a SOCKS5 message or a connection was refused.
#[derive(Debug, Copy, Clone, PartialEq, Eq, Structural)]
pub enum SocksError {
    /// A request shorter than the shortest request there is; holds its length.
    TooShort(usize),
    /// The message is not of SOCKS version 5; holds the version byte.
    BadVersion(u8),
    /// Unknown command byte.
    InvalidCommand(u8),
    /// Unknown address type byte.
    InvalidAddressType(u8),
    /// The message ends before a field that it announces.
    Truncated,
    /// The domain name is not valid UTF-8.
    InvalidDomain,
    /// The greeting is malformed.
    InvalidHandshake,
    /// The peer closed its side of the socket.
    ConnectionReset,
    /// The socket reported an error.
    SocketError,
}

/// A client greeting: version and the authentication methods it offers.
#[derive(Debug)]
pub struct Connect {
    pub ver: u8,
    pub methods: Vec<u8>,
}

/// The greeting in a buffer, as `readConnect` reads it: at least three
/// bytes, the second of which is the buffer's length minus 2, modulo 256;
/// that many methods follow the first two bytes.
pub open spec fn connect_spec(buf: Seq<u8>) -> Option<(u8, Seq<u8>)> {
    if buf.len() < 3 {
        None
    } else if (buf.len() - 2) % 256 != buf[1] as int {
        None
    } else {
        Some((buf[0], buf.subrange(2, 2 + buf[1] as int)))
    }
}

/// Reads a client greeting.
#[allow(non_snake_case)]
pub fn readConnect(buf: &[u8]) -> (r: Option<Connect>)
    ensures
        r is Some <==> connect_spec(buf@) is Some,
        r matches Some(c) ==> connect_spec(buf@) == Some((c.ver, c.methods@)),
{
    if buf.len() < 3 {
        return None;
    }
    if ((buf.len() - 2) % 256) as u8 != buf[1] {
        return None;
    }
    let n = buf[1] as usize;
    let methods = vstd::slice::slice_to_vec(&buf[2..2 + n]);
    return Some(Connect { ver: buf[0], methods });
}

/// What a client asks the proxy to do.
#[derive(Debug, Copy, Clone, PartialEq, Eq, Structural)]
pub enum Command {
    Connect,
    Bind,
    Udp,
}

/// The command that a command byte names.
pub open spec fn command_spec(i: u8) -> Result<Command, SocksError> {
    if i == 1 {
        Ok(Command::Connect)
    } else if i == 2 {
        Ok(Command::Bind)
    } else if i == 3 {
        Ok(Command::Udp)
    } else {
        Err(SocksError::InvalidCommand(i))
    }
}

impl Command {
    /// The command of byte 1, 2 or 3.
    pub fn from(i: u8) -> (r: Result<Command, SocksError>)
        ensures
            r == command_spec(i),
    {
        match i {
            1 => Ok(Command::Connect),
            2 => Ok(Command::Bind),
            3 => Ok(Command::Udp),
            _ => Err(SocksError::InvalidCommand(i)),
        }
    }

    /// The command's byte on the wire.
    pub fn code(&self) -> (r: u8)
        ensures
            command_spec(r) == Ok::<Command, SocksError>(*self),
    {
        match self {
            Command::Connect => 1,
            Command::Bind => 2,
            Command::Udp => 3,
        }
    }
}

/// The destination of a request.
#[derive(Debug)]
pub enum Addr {
    Ipv4([u8; 4]),
    Ipv6([u8; 16]),
    Domain(String),
}

/// An address as a value: the address bytes, or the characters of the name.
pub enum AddrView {
    Ipv4(Seq<u8>),
    Ipv6(Seq<u8>),
    Domain(Seq<char>),
}

impl View for Addr {
    type V = AddrView;

    open spec fn view(&self) -> AddrView {
        match self {
            Addr::Ipv4(a) => AddrView::Ipv4(a@),
            Addr::Ipv6(a) => AddrView::Ipv6(a@),
            Addr::Domain(d) => AddrView::Domain(d@),
        }
    }
}

/// The address that starts at `pos`, and the position after it: a type byte,
/// then 4 bytes (type 1), 16 bytes (type 4), or a length byte and that many
/// bytes of UTF-8 (type 3).
pub open spec fn addr_spec(buf: Seq<u8>, pos: int) -> Result<(AddrView, int), SocksError> {
    if pos >= buf.len() {
        Err(SocksError::Truncated)
    } else if buf[pos] == 1 {
        if pos + 5 <= buf.len() {
            Ok((AddrView::Ipv4(buf.subrange(pos + 1, pos + 5)), pos + 5))
        } else {
            Err(SocksError::Truncated)
        }
    } else if buf[pos] == 4 {
        if pos + 17 <= buf.len() {
            Ok((AddrView::Ipv6(buf.subrange(pos + 1, pos + 17)), pos + 17))
        } else {
            Err(SocksError::Truncated)
        }
    } else if buf[pos] == 3 {
        if pos + 2 > buf.len() {
            Err(SocksError::Truncated)
        } else if pos + 2 + buf[pos + 1] > buf.len() {
            Err(SocksError::Truncated)
        } else if valid_utf8(buf.subrange(pos + 2, pos + 2 + buf[pos + 1])) {
            Ok(
                (
                    AddrView::Domain(decode_utf8(buf.subrange(pos + 2, pos + 2 + buf[pos + 1]))),
                    pos + 2 + buf[pos + 1],
                ),
            )
        } else {
            Err(SocksError::InvalidDomain)
        }
    } else {
        Err(SocksError::InvalidAddressType(buf[pos]))
    }
}

/// `String::from_utf8`: the string that the bytes encode, if they are valid
/// UTF-8; its encoding is the bytes themselves.
#[verifier::external_body]
fn string_from_utf8(bytes: Vec<u8>) -> (r: Option<String>)
    ensures
        r is Some <==> valid_utf8(bytes@),
        r matches Some(s) ==> s@ == decode_utf8(bytes@),
{
    String::from_utf8(bytes).ok()
}

/// `<byteorder::NetworkEndian as ByteOrder>::read_u16`: the first two bytes
/// as a big-endian number.
#[verifier::external_body]
fn read_u16_network(buf: &[u8]) -> (r: u16)
    requires
        buf@.len() >= 2,
    ensures
        r == buf@[0] as int * 256 + buf@[1] as int,
{
    byteorder::NetworkEndian::read_u16(buf)
}

impl Addr {
    /// Reads the address that starts at `pos`; returns it with the position
    /// after it.
    pub fn from(buf: &[u8], pos: usize) -> (r: Result<(Addr, usize), SocksError>)
        ensures
            match r {
                Ok((a, p)) => addr_spec(buf@, pos as int) == Ok::<(AddrView, int), SocksError>(
                    (a@, p as int),
                ),
                Err(e) => addr_spec(buf@, pos as int) == Err::<(AddrView, int), SocksError>(e),
            },
    {
        if pos >= buf.len() {
            return Err(SocksError::Truncated);
        }
        let t = buf[pos];
        if t == 1 {
            if buf.len() - pos < 5 {
                return Err(SocksError::Truncated);
            }
            let mut a = [0u8;4];
            let mut i: usize = 0;
            while i < 4
                invariant
                    0 <= i <= 4,
                    pos + 5 <= buf.len(),
                    forall|j: int| 0 <= j < i ==> a@[j] == buf@[pos + 1 + j],
                decreases 4 - i,
            {
                a[i] = buf[pos + 1 + i];
                i = i + 1;
            }
            assert(a@ =~= buf@.subrange(pos + 1, pos + 5));
            Ok((Addr::Ipv4(a), pos + 5))
        } else if t == 4 {
            if buf.len() - pos < 17 {
                return Err(SocksError::Truncated);
            }
            let mut a = [0u8;16];
            let mut i: usize = 0;
            while i < 16
                invariant
                    0 <= i <= 16,
                    pos + 17 <= buf.len(),
                    forall|j: int| 0 <= j < i ==> a@[j] == buf@[pos + 1 + j],
                decreases 16 - i,
            {
                a[i] = buf[pos + 1 + i];
                i = i + 1;
            }
            assert(a@ =~= buf@.subrange(pos + 1, pos + 17));
            Ok((Addr::Ipv6(a), pos + 17))
        } else if t == 3 {
            if buf.len() - pos < 2 {
                return Err(SocksError::Truncated);
            }
            let n = buf[pos + 1] as usize;
            if buf.len() - pos - 2 < n {
                return Err(SocksError::Truncated);
            }
            let bytes = vstd::slice::slice_to_vec(&buf[pos + 2..pos + 2 + n]);
            match string_from_utf8(bytes) {
                Some(name) => Ok((Addr::Domain(name), pos + 2 + n)),
                None => Err(SocksError::InvalidDomain),
            }
        } else {
            Err(SocksError::InvalidAddressType(t))
        }
    }
}

/// A client request: command, destination address and port.
#[derive(Debug)]
pub struct Request {
    pub cmd: Command,
    pub addr: Addr,
    pub port: u16,
}

/// A request as a value.
pub struct RequestView {
    pub cmd: Command,
    pub addr: AddrView,
    pub port: u16,
}

impl View for Request {
    type V = RequestView;

    open spec fn view(&self) -> RequestView {
        RequestView { cmd: self.cmd, addr: self.addr@, port: self.port }
    }
}

/// The request in a buffer: version 5, a command byte, a reserved byte, an
/// address and a big-endian port; at least 7 bytes in all.
pub open spec fn request_spec(buf: Seq<u8>) -> Result<RequestView, SocksError> {
    if buf.len() < 7 {
        Err(SocksError::TooShort(buf.len() as usize))
    } else if buf[0] != 5 {
        Err(SocksError::BadVersion(buf[0]))
    } else {
        match command_spec(buf[1]) {
            Err(e) => Err(e),
            Ok(cmd) => match addr_spec(buf, 3) {
                Err(e) => Err(e),
                Ok((addr, p)) => if p + 2 > buf.len() {
                    Err(SocksError::Truncated)
                } else {
                    Ok(
                        RequestView {
                            cmd,
                            addr,
                            port: (buf[p] as int * 256 + buf[p + 1] as int) as u16,
                        },
                    )
                },
            },
        }
    }
}

/// Reads a client request.
#[allow(non_snake_case)]
pub fn readRequest(buf: &[u8]) -> (r: Result<Request, SocksError>)
    ensures
        match r {
            Ok(req) => request_spec(buf@) == Ok::<RequestView, SocksError>(req@),
            Err(e) => request_spec(buf@) == Err::<RequestView, SocksError>(e),
        },
{
    if buf.len() < 7 {
        return Err(SocksError::TooShort(buf.len()));
    }
    let ver = buf[0];
    if 0x05 != ver {
        return Err(SocksError::BadVersion(ver));
    }
    let cmd = Command::from(buf[1])?;
    let (addr, p) = Addr::from(buf, 3)?;
    if buf.len() - p < 2 {
        return Err(SocksError::Truncated);
    }
    let port = read_u16_network(&buf[p..p + 2]);
    return Ok(Request { cmd, addr, port });
}

/// A greeting is refused only when it is shorter than 3 bytes or when its
/// count byte (the second) differs from its length less 2, modulo 256;
/// otherwise its version is the first byte and its methods are the `count`
/// bytes after the first two.
pub proof fn lemma_greeting_fields(buf: Seq<u8>)
    ensures
        connect_spec(buf) is None <==> (buf.len() < 3 || (buf.len() - 2) % 256 != buf[1] as int),
        match connect_spec(buf) {
            Some((ver, methods)) => {
                &&& ver == buf[0]
                &&& methods.len() == buf[1] as int
                &&& forall|i: int| 0 <= i < buf[1] as int ==> #[trigger] methods[i] == buf[2 + i]
            },
            None => true,
        },
{
}

/// An address of type 1 is the 4 bytes after the type byte, one of type 4 the
/// 16 bytes after it, and one of type 3 the UTF-8 name of as many bytes as
/// the length byte after the type byte says; the address ends after them.
pub proof fn lemma_address_fields(buf: Seq<u8>, pos: int)
    requires
        0 <= pos < buf.len(),
    ensures
        buf[pos] == 1 && pos + 5 <= buf.len() ==> match addr_spec(buf, pos) {
            Ok((AddrView::Ipv4(a), end)) => {
                &&& end == pos + 5
                &&& a.len() == 4
                &&& forall|i: int| 0 <= i < 4 ==> #[trigger] a[i] == buf[pos + 1 + i]
            },
            _ => false,
        },
        buf[pos] == 4 && pos + 17 <= buf.len() ==> match addr_spec(buf, pos) {
            Ok((AddrView::Ipv6(a), end)) => {
                &&& end == pos + 17
                &&& a.len() == 16
                &&& forall|i: int| 0 <= i < 16 ==> #[trigger] a[i] == buf[pos + 1 + i]
            },
            _ => false,
        },
        buf[pos] == 3 && pos + 2 <= buf.len() && pos + 2 + buf[pos + 1] <= buf.len() && valid_utf8(
            buf.subrange(pos + 2, pos + 2 + buf[pos + 1]),
        ) ==> match addr_spec(buf, pos) {
            Ok((AddrView::Domain(d), end)) => {
                &&& end == pos + 2 + buf[pos + 1]
                &&& d == decode_utf8(buf.subrange(pos + 2, pos + 2 + buf[pos + 1]))
            },
            _ => false,
        },
        addr_spec(buf, pos) is Ok ==> (buf[pos] == 1 || buf[pos] == 3 || buf[pos] == 4),
{
}

/// Where the address of a request ends: after 4 address bytes (type 1), 16
/// (type 4), or a length byte and that many name bytes (type 3).
pub open spec fn request_address_end(buf: Seq<u8>) -> int {
    if buf[3] == 1 {
        8
    } else if buf[3] == 4 {
        20
    } else {
        5 + buf[4]
    }
}

/// An accepted request is version 5 with command byte 1, 2 or 3; its address
/// starts at byte 3; and its port is the two bytes right after the address,
/// high byte first, whatever the address type.
pub proof fn lemma_request_fields(buf: Seq<u8>)
    requires
        request_spec(buf) is Ok,
    ensures
        buf.len() >= 7,
        buf[0] == 5,
        buf[1] == 1 ==> request_spec(buf)->Ok_0.cmd == Command::Connect,
        buf[1] == 2 ==> request_spec(buf)->Ok_0.cmd == Command::Bind,
        buf[1] == 3 ==> request_spec(buf)->Ok_0.cmd == Command::Udp,
        1 <= buf[1] <= 3,
        buf[3] == 1 || buf[3] == 3 || buf[3] == 4,
        request_address_end(buf) + 2 <= buf.len(),
        match request_spec(buf) {
            Ok(req) => {
                &&& req.port as int == buf[request_address_end(buf)] as int * 256 + buf[
                request_address_end(buf) + 1] as int
                &&& buf[3] == 1 ==> (req.addr matches AddrView::Ipv4(a) && forall|i: int|
                    0 <= i < 4 ==> #[trigger] a[i] == buf[4 + i])
                &&& buf[3] == 4 ==> (req.addr matches AddrView::Ipv6(a) && forall|i: int|
                    0 <= i < 16 ==> #[trigger] a[i] == buf[4 + i])
            },
            Err(_) => false,
        },
{
    lemma_address_fields(buf, 3);
}

/// A request of version 5, a known command, and an IPv4 or IPv6 address
/// followed by a port is accepted.
pub proof fn lemma_request_accepted(buf: Seq<u8>)
    requires
        buf.len() >= 7,
        buf[0] == 5,
        1 <= buf[1] <= 3,
        (buf[3] == 1 && buf.len() >= 10) || (buf[3] == 4 && buf.len() >= 22),
    ensures
        request_spec(buf) is Ok,
{
    lemma_address_fields(buf, 3);
}

/// How a socket transfer that the caller made came out.
pub enum IoOutcome<E> {
    /// The socket took or gave this many bytes.
    Transferred(usize),
    /// The socket would have blocked.
    WouldBlock,
    /// The socket failed with this error.
    Failed(E),
}

/// A socket with what is known of it: whether it is worth reading from and
/// whether it is worth writing to.
pub struct ReadWritePipe<T> {
    pub pipe: T,
    pub readable: bool,
    pub writable: bool,
}

/// What a read from the socket into the free room of `pre` that came out as
/// `outcome` leaves behind: the bytes read, which the socket put at the start
/// of the free room, join the queue; a read of nothing, or one that would have
/// blocked, marks the socket as not readable; a failure changes nothing.
pub open spec fn pipe_read_post<T, E>(
    pipe: ReadWritePipe<T>,
    pre: CircBuf,
    outcome: IoOutcome<E>,
    pipe_post: ReadWritePipe<T>,
    post: CircBuf,
    r: Result<usize, E>,
) -> bool {
    &&& circbuf_wf(post)
    &&& circbuf_storage_len(post) == circbuf_storage_len(pre)
    &&& pipe_post.pipe == pipe.pipe
    &&& pipe_post.writable == pipe.writable
    &&& match outcome {
        IoOutcome::Transferred(n) => {
            &&& r == Ok::<usize, E>(n)
            &&& pipe_post.readable == (pipe.readable && n != 0)
            &&& n <= circbuf_room(pre).len() ==> circbuf_bytes(post) == circbuf_bytes(pre)
                + circbuf_room(pre).subrange(0, n as int)
            &&& n > circbuf_room(pre).len() ==> circbuf_bytes(post) == circbuf_bytes(pre)
        },
        IoOutcome::WouldBlock => {
            &&& r == Ok::<usize, E>(0)
            &&& !pipe_post.readable
            &&& post == pre
        },
        IoOutcome::Failed(e) => {
            &&& r == Err::<usize, E>(e)
            &&& pipe_post.readable == pipe.readable
            &&& post == pre
        },
    }
}

/// What a write to the socket of the queued bytes of `pre` (the bytes that
/// `ReadWritePipe::pending` hands out) that came out as `outcome` leaves
/// behind: the bytes written leave the queue; a write of nothing, or one that
/// would have blocked, marks the socket as not writable; a failure changes
/// nothing.
pub open spec fn pipe_write_post<T, E>(
    pipe: ReadWritePipe<T>,
    pre: CircBuf,
    outcome: IoOutcome<E>,
    pipe_post: ReadWritePipe<T>,
    post: CircBuf,
    r: Result<usize, E>,
) -> bool {
    &&& circbuf_wf(post)
    &&& circbuf_storage_len(post) == circbuf_storage_len(pre)
    &&& pipe_post.pipe == pipe.pipe
    &&& pipe_post.readable == pipe.readable
    &&& match outcome {
        IoOutcome::Transferred(n) => {
            &&& r == Ok::<usize, E>(n)
            &&& pipe_post.writable == (pipe.writable && n != 0)
            &&& n <= circbuf_bytes(pre).len() ==> circbuf_bytes(post) == circbuf_bytes(pre).skip(
                n as int,
            )
            &&& n > circbuf_bytes(pre).len() ==> circbuf_bytes(post) == circbuf_bytes(pre)
        },
        IoOutcome::WouldBlock => {
            &&& r == Ok::<usize, E>(0)
            &&& !pipe_post.writable
            &&& post == pre
        },
        IoOutcome::Failed(e) => {
            &&& r == Err::<usize, E>(e)
            &&& pipe_post.writable == pipe.writable
            &&& post == pre
        },
    }
}

impl<T> ReadWritePipe<T> {
    pub fn new(pipe: T) -> (r: ReadWritePipe<T>)
        ensures
            r.pipe == pipe,
            !r.readable,
            !r.writable,
    {
        ReadWritePipe { pipe, readable: false, writable: false }
    }

    /// Whether a read into `buffer` is to be tried at all: not when the
    /// buffer can hold no byte.
    pub fn read_wanted(buffer: &CircBuf) -> (r: bool)
        requires
            circbuf_wf(*buffer),
        ensures
            r == (circbuf_capacity(*buffer) != 0),
    {
        circbuf_cap(buffer) != 0
    }

    /// Takes account of a read from the socket into the free room of `buffer`.
    pub fn read<E>(&mut self, buffer: &mut CircBuf, outcome: IoOutcome<E>) -> (r: Result<usize, E>)
        requires
            circbuf_wf(*old(buffer)),
        ensures
            pipe_read_post(*old(self), *old(buffer), outcome, *final(self), *final(buffer), r),
    {
        match outcome {
            IoOutcome::Transferred(0) => {
                self.readable = false;
                assert(circbuf_bytes(*buffer) + circbuf_room(*buffer).subrange(0, 0) =~= circbuf_bytes(*buffer));
                Ok(0)
            },
            IoOutcome::Transferred(read) => {
                let _ = circbuf_advance_write(buffer, read);
                Ok(read)
            },
            IoOutcome::WouldBlock => {
                self.readable = false;
                Ok(0)
            },
            IoOutcome::Failed(e) => Err(e),
        }
    }

    /// Whether a write from `buffer` is to be tried at all: not when no byte
    /// is queued.
    pub fn write_wanted(buffer: &CircBuf) -> (r: bool)
        ensures
            r == (circbuf_bytes(*buffer).len() != 0),
    {
        circbuf_len(buffer) != 0
    }

    /// The bytes to offer the socket in a write: all queued bytes, oldest
    /// first, in two pieces.
    pub fn pending(buffer: &CircBuf) -> (r: (&[u8], &[u8]))
        requires
            circbuf_wf(*buffer),
        ensures
            r.0@ + r.1@ == circbuf_bytes(*buffer),
    {
        circbuf_get_bytes(buffer)
    }

    /// Takes account of a write to the socket of the bytes that `pending`
    /// handed out.
    pub fn write<E>(&mut self, buffer: &mut CircBuf, outcome: IoOutcome<E>) -> (r: Result<usize, E>)
        requires
            circbuf_wf(*old(buffer)),
        ensures
            pipe_write_post(*old(self), *old(buffer), outcome, *final(self), *final(buffer), r),
    {
        match outcome {
            IoOutcome::Transferred(0) => {
                self.writable = false;
                assert(circbuf_bytes(*buffer).skip(0) =~= circbuf_bytes(*buffer));
                Ok(0)
            },
            IoOutcome::Transferred(written) => {
                let _ = circbuf_advance_read(buffer, written);
                Ok(written)
            },
            IoOutcome::WouldBlock => {
                self.writable = false;
                Ok(0)
            },
            IoOutcome::Failed(e) => Err(e),
        }
    }
}

/// Relaying loses, duplicates and reorders no byte: after a read into a
/// buffer and a write out of it, the bytes written followed by the bytes still
/// queued are the bytes queued before followed by the bytes read.
pub proof fn lemma_relay_keeps_stream<T, E>(
    p0: ReadWritePipe<T>,
    b0: CircBuf,
    read: usize,
    r1: Result<usize, E>,
    p1: ReadWritePipe<T>,
    b1: CircBuf,
    written: usize,
    r2: Result<usize, E>,
    p2: ReadWritePipe<T>,
    b2: CircBuf,
)
    requires
        circbuf_wf(b0),
        read <= circbuf_room(b0).len(),
        pipe_read_post(p0, b0, IoOutcome::Transferred(read), p1, b1, r1),
        written <= circbuf_bytes(b1).len(),
        pipe_write_post(p1, b1, IoOutcome::Transferred(written), p2, b2, r2),
    ensures
        circbuf_bytes(b1).subrange(0, written as int) + circbuf_bytes(b2) == circbuf_bytes(b0)
            + circbuf_room(b0).subrange(0, read as int),
{
    let q1 = circbuf_bytes(b1);
    assert(q1.subrange(0, written as int) + q1.skip(written as int) =~= q1);
}

/// What one direction of relaying did with its source socket.
pub struct Transfer<S, E> {
    /// Bytes read or written.
    pub count: usize,
    /// The socket, taken out of its slot because the transfer failed, with
    /// the error; the caller deregisters it.
    pub closed: Option<(Tcp<S>, E)>,
}

/// The first half of feeding bytes from `source` through `buf`: takes
/// account of the read from the source socket (`outcome`, or `None` when no
/// read was made because there is no source or no room); a source whose read
/// failed is taken out and handed back. Returns whether there are bytes to
/// send on.
pub fn feed_read<S, E>(source: &mut Option<Tcp<S>>, buf: &mut CircBuf, outcome: Option<
    IoOutcome<E>,
>) -> (r: (Transfer<S, E>, bool))
    requires
        circbuf_wf(*old(buf)),
    ensures
        circbuf_wf(*final(buf)),
        circbuf_storage_len(*final(buf)) == circbuf_storage_len(*old(buf)),
        r.1 == (circbuf_bytes(*final(buf)).len() != 0),
        (*old(source) is None || outcome is None) ==> *final(source) == *old(source)
            && *final(buf) == *old(buf) && r.0.count == 0 && r.0.closed is None,
        (*old(source), outcome) matches (Some(t), Some(o)) ==> match r.0.closed {
            Some((t3, e)) => {
                &&& o == IoOutcome::<E>::Failed(e)
                &&& t3 == t
                &&& *final(source) is None
                &&& *final(buf) == *old(buf)
            },
            None => {
                &&& !(o is Failed)
                &&& match *final(source) {
                    Some(t2) => t2.handle == t.handle && pipe_read_post(
                        t.pipe,
                        *old(buf),
                        o,
                        t2.pipe,
                        *final(buf),
                        Ok::<usize, E>(r.0.count),
                    ),
                    None => false,
                }
            },
        },
{
    let mut count: usize = 0;
    let mut closed: Option<(Tcp<S>, E)> = None;
    if let Some(o) = outcome {
        if source.is_some() {
            let mut tcp = source.take().unwrap();
            let ghost t0 = tcp;
            match tcp.pipe.read(buf, o) {
                Err(e) => {
                    assert(tcp == t0);
                    closed = Some((tcp, e));
                },
                Ok(read) => {
                    count = read;
                    *source = Some(tcp);
                },
            }
        }
    }
    let more = !circbuf_is_empty(buf);
    (Transfer { count, closed }, more)
}

/// The second half of feeding: takes account of the write to `dest` of the
/// bytes that `ReadWritePipe::pending` handed out (`outcome`, or `None` when
/// no write was made because there is no destination or nothing queued); a
/// destination whose write failed is taken out and handed back.
pub fn feed_write<S, E>(dest: &mut Option<Tcp<S>>, buf: &mut CircBuf, outcome: Option<
    IoOutcome<E>,
>) -> (r: Transfer<S, E>)
    requires
        circbuf_wf(*old(buf)),
    ensures
        circbuf_wf(*final(buf)),
        circbuf_storage_len(*final(buf)) == circbuf_storage_len(*old(buf)),
        (*old(dest) is None || outcome is None) ==> *final(dest) == *old(dest) && *final(buf)
            == *old(buf) && r.count == 0 && r.closed is None,
        (*old(dest), outcome) matches (Some(t), Some(o)) ==> match r.closed {
            Some((t3, e)) => {
                &&& o == IoOutcome::<E>::Failed(e)
                &&& t3 == t
                &&& *final(dest) is None
                &&& *final(buf) == *old(buf)
            },
            None => {
                &&& !(o is Failed)
                &&& match *final(dest) {
                    Some(t2) => t2.handle == t.handle && pipe_write_post(
                        t.pipe,
                        *old(buf),
                        o,
                        t2.pipe,
                        *final(buf),
                        Ok::<usize, E>(r.count),
                    ),
                    None => false,
                }
            },
        },
{
    let mut count: usize = 0;
    let mut closed: Option<(Tcp<S>, E)> = None;
    if let Some(o) = outcome {
        if dest.is_some() {
            let mut tcp = dest.take().unwrap();
            let ghost t0 = tcp;
            match tcp.pipe.write(buf, o) {
                Err(e) => {
                    assert(tcp == t0);
                    closed = Some((tcp, e));
                },
                Ok(written) => {
                    count = written;
                    *dest = Some(tcp);
                },
            }
        }
    }
    Transfer { count, closed }
}

/// What a readiness event says of a socket.
#[derive(Debug, Copy, Clone, PartialEq, Eq, Structural)]
pub struct EventFlags {
    pub readable: bool,
    pub writable: bool,
    pub read_closed: bool,
    pub write_closed: bool,
    pub error: bool,
}

/// A registered socket: the pipe and the handle under which the event loop
/// knows it.
pub struct Tcp<S> {
    pub pipe: ReadWritePipe<S>,
    pub handle: Handle,
}

impl<S> Tcp<S> {
    /// Takes account of a readiness event: readiness is remembered; a closed
    /// side or an error makes the socket neither readable nor writable and is
    /// reported.
    pub fn update_state(&mut self, event: &EventFlags) -> (r: Result<(), SocksError>)
        ensures
            final(self).pipe.pipe == old(self).pipe.pipe,
            final(self).handle == old(self).handle,
            (event.read_closed || event.write_closed) ==> r == Err::<(), SocksError>(
                SocksError::ConnectionReset,
            ),
            !(event.read_closed || event.write_closed) && event.error ==> r == Err::<
                (),
                SocksError,
            >(SocksError::SocketError),
            r is Err ==> !final(self).pipe.readable && !final(self).pipe.writable,
            r is Ok <==> !(event.read_closed || event.write_closed || event.error),
            r is Ok ==> final(self).pipe.readable == (old(self).pipe.readable || event.readable)
                && final(self).pipe.writable == (old(self).pipe.writable || event.writable),
    {
        if event.readable {
            self.pipe.readable = true;
        }
        if event.writable {
            self.pipe.writable = true;
        }
        if event.read_closed || event.write_closed {
            self.pipe.readable = false;
            self.pipe.writable = false;
            return Err(SocksError::ConnectionReset);
        }
        if event.error {
            self.pipe.readable = false;
            self.pipe.writable = false;
            return Err(SocksError::SocketError);
        }
        Ok(())
    }
}

/// Where a connection stands in the protocol.
#[derive(Debug, Copy, Clone, PartialEq, Eq, Structural)]
pub enum ConnectionState {
    /// Waiting for the client's greeting.
    Handshake,
    /// Waiting for the client's request.
    Request,
    /// Relaying bytes both ways.
    Transfer,
}

/// What the client's bytes called for.
#[derive(Debug)]
pub enum ClientStep {
    /// The connection relays; the bytes are for the remote.
    Relay,
    /// The greeting was read and answered.
    Greeted(Connect),
    /// The request was read; the remote is to be connected to, and then
    /// `request_granted` answers the client.
    Connect(Request),
}

/// Position of a protocol state in the order the states are gone through.
pub open spec fn state_order(state: ConnectionState) -> int {
    match state {
        ConnectionState::Handshake => 0,
        ConnectionState::Request => 1,
        ConnectionState::Transfer => 2,
    }
}

/// Bytes in the storage of each connection buffer.
pub const CONNECTION_BUFFER_SIZE: usize = 8192;

/// The answer to a greeting: version 5, no authentication.
pub open spec fn greeting_reply() -> Seq<u8> {
    seq![5u8, 0u8]
}

/// The answer to a granted request: version 5, success, IPv4 address 0.0.0.0, port 0.
pub open spec fn request_reply() -> Seq<u8> {
    seq![5u8, 0u8, 0u8, 1u8, 0u8, 0u8, 0u8, 0u8, 0u8, 0u8]
}

/// `data` appended to `queue` as far as a buffer of `cap` bytes has room.
pub open spec fn queued_after_write(queue: Seq<u8>, cap: int, data: Seq<u8>) -> Seq<u8> {
    if data.len() <= cap - queue.len() {
        queue + data
    } else {
        queue + data.subrange(0, cap - queue.len())
    }
}

/// The oldest queued bytes of `buf` that lie in one piece of its storage:
/// from the read cursor up to the write cursor or the end of the storage.
pub open spec fn first_piece(buf: CircBuf) -> Seq<u8> {
    circbuf_bytes(buf).subrange(0, circbuf_first_len(buf) as int)
}

/// A SOCKS5 connection as the proxy keeps it: the client socket until the
/// event loop has it, the two sockets once registered, and a buffer for each
/// direction.
pub struct Connection<S> {
    pub handle: Option<Handle>,
    pub lol_socket: Option<S>,
    pub state: ConnectionState,
    pub client: Option<Tcp<S>>,
    pub remote: Option<Tcp<S>>,
    pub buf_from_client: CircBuf,
    pub buf_to_client: CircBuf,
}

impl<S> Connection<S> {
    /// Both buffers hold no more than they can.
    pub open spec fn wf(&self) -> bool {
        &&& circbuf_wf(self.buf_from_client)
        &&& circbuf_wf(self.buf_to_client)
    }

    /// A connection in the handshake state for a freshly accepted client.
    pub fn new(client: S) -> (r: Connection<S>)
        ensures
            r.wf(),
            r.handle is None,
            r.lol_socket == Some(client),
            r.state == ConnectionState::Handshake,
            r.client is None,
            r.remote is None,
            circbuf_bytes(r.buf_from_client).len() == 0,
            circbuf_bytes(r.buf_to_client).len() == 0,
            circbuf_capacity(r.buf_from_client) == CONNECTION_BUFFER_SIZE - 1,
            circbuf_capacity(r.buf_to_client) == CONNECTION_BUFFER_SIZE - 1,
    {
        assert(is_power_of_two_8192()) by {
            assert(8192usize & 8191usize == 0) by (bit_vector);
        }
        Connection {
            handle: None,
            lol_socket: Some(client),
            state: ConnectionState::Handshake,
            client: None,
            remote: None,
            buf_from_client: circbuf_with_capacity(CONNECTION_BUFFER_SIZE).unwrap(),
            buf_to_client: circbuf_with_capacity(CONNECTION_BUFFER_SIZE).unwrap(),
        }
    }

    /// Acts on the bytes the client has sent, by the protocol state: in the
    /// handshake the oldest piece of them must be a greeting, which is dropped
    /// and answered; in the request state it must be a request, which is
    /// dropped and returned; in the transfer state nothing is done.
    pub fn client_step(&mut self) -> (r: Result<ClientStep, SocksError>)
        requires
            old(self).wf(),
        ensures
            final(self).wf(),
            state_order(old(self).state) <= state_order(final(self).state),
            final(self).handle == old(self).handle,
            final(self).lol_socket == old(self).lol_socket,
            final(self).client == old(self).client,
            final(self).remote == old(self).remote,
            circbuf_capacity(final(self).buf_from_client) == circbuf_capacity(
                old(self).buf_from_client,
            ),
            circbuf_capacity(final(self).buf_to_client) == circbuf_capacity(
                old(self).buf_to_client,
            ),
            old(self).state == ConnectionState::Transfer ==> (r matches Ok(ClientStep::Relay)
                && *final(self) == *old(self)),
            old(self).state == ConnectionState::Handshake ==> (r is Ok <==> connect_spec(
                first_piece(old(self).buf_from_client),
            ) is Some),
            old(self).state == ConnectionState::Handshake ==> match r {
                Ok(ClientStep::Greeted(c)) => {
                    &&& connect_spec(first_piece(old(self).buf_from_client)) == Some(
                        (c.ver, c.methods@),
                    )
                    &&& circbuf_bytes(final(self).buf_from_client) == circbuf_bytes(
                        old(self).buf_from_client,
                    ).skip(circbuf_first_len(old(self).buf_from_client) as int)
                    &&& circbuf_bytes(final(self).buf_to_client) == queued_after_write(
                        circbuf_bytes(old(self).buf_to_client),
                        circbuf_capacity(old(self).buf_to_client),
                        greeting_reply(),
                    )
                    &&& final(self).state == ConnectionState::Request
                },
                Err(e) => e == SocksError::InvalidHandshake && *final(self) == *old(self),
                _ => false,
            },
            old(self).state == ConnectionState::Request ==> match r {
                Ok(ClientStep::Connect(req)) => {
                    &&& request_spec(first_piece(old(self).buf_from_client)) == Ok::<
                        RequestView,
                        SocksError,
                    >(req@)
                    &&& circbuf_bytes(final(self).buf_from_client) == circbuf_bytes(
                        old(self).buf_from_client,
                    ).skip(circbuf_first_len(old(self).buf_from_client) as int)
                    &&& final(self).buf_to_client == old(self).buf_to_client
                    &&& final(self).state == ConnectionState::Request
                },
                Err(e) => request_spec(first_piece(old(self).buf_from_client)) == Err::<
                    RequestView,
                    SocksError,
                >(e) && *final(self) == *old(self),
                _ => false,
            },
    {
        match self.state {
            ConnectionState::Transfer => {
                return Ok(ClientStep::Relay);
            },
            ConnectionState::Handshake => {
                let (buf, _) = circbuf_get_bytes(&self.buf_from_client);
                let connect = match readConnect(buf) {
                    Some(connect) => connect,
                    None => {
                        assert(buf@ =~= first_piece(self.buf_from_client));
                        return Err(SocksError::InvalidHandshake);
                    },
                };
                let to_drop = buf.len();
                assert(buf@ =~= first_piece(self.buf_from_client));
                let _ = circbuf_advance_read(&mut self.buf_from_client, to_drop);
                let reply: [u8; 2] = [0x05u8, 0x00];
                circbuf_write(&mut self.buf_to_client, &reply).unwrap();
                assert(reply@ =~= greeting_reply());
                self.state = ConnectionState::Request;
                Ok(ClientStep::Greeted(connect))
            },
            ConnectionState::Request => {
                let (buf, _) = circbuf_get_bytes(&self.buf_from_client);
                assert(buf@ =~= first_piece(self.buf_from_client));
                let request = readRequest(buf)?;
                let to_drop = buf.len();
                let _ = circbuf_advance_read(&mut self.buf_from_client, to_drop);
                Ok(ClientStep::Connect(request))
            },
        }
    }

    /// Answers a request whose remote has been connected to, and moves on to
    /// relaying.
    pub fn request_granted(&mut self)
        requires
            old(self).wf(),
        ensures
            final(self).wf(),
            state_order(old(self).state) <= state_order(final(self).state),
            final(self).state == ConnectionState::Transfer,
            final(self).handle == old(self).handle,
            final(self).lol_socket == old(self).lol_socket,
            final(self).client == old(self).client,
            final(self).remote == old(self).remote,
            final(self).buf_from_client == old(self).buf_from_client,
            circbuf_capacity(final(self).buf_to_client) == circbuf_capacity(
                old(self).buf_to_client,
            ),
            circbuf_bytes(final(self).buf_to_client) == queued_after_write(
                circbuf_bytes(old(self).buf_to_client),
                circbuf_capacity(old(self).buf_to_client) as int,
                request_reply(),
            ),
    {
        let reply: [u8; 10] = [0x05u8, 0x00, 0x00, 0x01, 0, 0, 0, 0, 0, 0];
        circbuf_write(&mut self.buf_to_client, &reply).unwrap();
        assert(reply@ =~= request_reply());
        self.state = ConnectionState::Transfer;
    }

    /// Whether the connection is over: a side is gone with nothing left to
    /// send it, or both sides are gone.
    pub fn should_disconnect(&self) -> (r: bool)
        ensures
            r == ((self.client is None && circbuf_bytes(self.buf_from_client).len() == 0) || (
            self.remote is None && circbuf_bytes(self.buf_to_client).len() == 0) || (
            self.client is None && self.remote is None)),
    {
        (self.client.is_none() && circbuf_is_empty(&self.buf_from_client)) || (self.remote.is_none()
            && circbuf_is_empty(&self.buf_to_client)) || (self.client.is_none()
            && self.remote.is_none())
    }

    /// Whether relaying can make no more progress until the next event: in
    /// each direction either there is nothing to read and nothing queued, or
    /// the receiving side cannot be written to.
    pub fn relay_stalled(&self) -> (r: bool)
        ensures
            r == (((!self.client_readable() && circbuf_bytes(self.buf_from_client).len() == 0)
                || !self.remote_writable()) && ((!self.remote_readable() && circbuf_bytes(
                self.buf_to_client,
            ).len() == 0) || !self.client_writable())),
    {
        let client_readable = match &self.client {
            Some(c) => c.pipe.readable,
            None => false,
        };
        let remote_readable = match &self.remote {
            Some(c) => c.pipe.readable,
            None => false,
        };
        let client_writable = match &self.client {
            Some(c) => c.pipe.writable,
            None => false,
        };
        let remote_writable = match &self.remote {
            Some(c) => c.pipe.writable,
            None => false,
        };
        ((!client_readable && circbuf_is_empty(&self.buf_from_client)) || !remote_writable) && ((
        !remote_readable && circbuf_is_empty(&self.buf_to_client)) || !client_writable)
    }

    /// Takes the client socket out of the connection, as when it failed; the
    /// caller deregisters it.
    pub fn close_client(&mut self) -> (r: Option<Tcp<S>>)
        ensures
            r == old(self).client,
            *final(self) == (Connection { client: None, ..*old(self) }),
    {
        self.client.take()
    }

    /// Takes the remote socket out of the connection, as when it failed; the
    /// caller deregisters it.
    pub fn close_remote(&mut self) -> (r: Option<Tcp<S>>)
        ensures
            r == old(self).remote,
            *final(self) == (Connection { remote: None, ..*old(self) }),
    {
        self.remote.take()
    }

    /// Ends the connection: takes both sockets out and names the context to
    /// deregister, if the connection was ever registered; the caller
    /// deregisters them.
    pub fn disconnect(&mut self) -> (r: Teardown<S>)
        ensures
            r.client == old(self).client,
            r.remote == old(self).remote,
            r.context == old(self).handle,
            *final(self) == (Connection { client: None, remote: None, ..*old(self) }),
    {
        let client = self.client.take();
        let remote = self.remote.take();
        Teardown { client, remote, context: self.handle }
    }

    pub open spec fn client_readable(&self) -> bool {
        self.client matches Some(c) && c.pipe.readable
    }

    pub open spec fn client_writable(&self) -> bool {
        self.client matches Some(c) && c.pipe.writable
    }

    pub open spec fn remote_readable(&self) -> bool {
        self.remote matches Some(c) && c.pipe.readable
    }

    pub open spec fn remote_writable(&self) -> bool {
        self.remote matches Some(c) && c.pipe.writable
    }
}

/// Which socket of a connection an event token names.
#[derive(Debug, Copy, Clone, PartialEq, Eq, Structural)]
pub enum Endpoint {
    Client,
    Remote,
    Unknown,
}

/// The socket of a connection that a source token names: 0 for the client,
/// 1 for the remote.
pub fn endpoint_of(token: usize) -> (r: Endpoint)
    ensures
        r == (if token == 0 {
            Endpoint::Client
        } else if token == 1 {
            Endpoint::Remote
        } else {
            Endpoint::Unknown
        }),
{
    match token {
        0 => Endpoint::Client,
        1 => Endpoint::Remote,
        _ => Endpoint::Unknown,
    }
}

/// What ending a connection leaves to deregister.
pub struct Teardown<S> {
    pub client: Option<Tcp<S>>,
    pub remote: Option<Tcp<S>>,
    pub context: Option<Handle>,
}

/// 8192 is a power of two.
pub open spec fn is_power_of_two_8192() -> bool {
    is_power_of_two(CONNECTION_BUFFER_SIZE)
}

} // verus!
