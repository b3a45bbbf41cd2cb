use std::io::Write;

use circbuf::CircBuf;
use ste_proxy::slab::Handle;
use ste_proxy::socks::{
    endpoint_of, feed_read, feed_write, readConnect, readRequest, Addr, ClientStep, Command,
    Connection, ConnectionState, Endpoint, EventFlags, IoOutcome, ReadWritePipe, SocksError, Tcp,
};

fn queued(b: &CircBuf) -> Vec<u8> {
    let [a, c] = b.get_bytes();
    let mut v = a.to_vec();
    v.extend_from_slice(c);
    v
}

fn no_event() -> EventFlags {
    EventFlags { readable: false, writable: false, read_closed: false, write_closed: false, error: false }
}

#[test]
fn greeting_is_read() {
    let c = readConnect(&[5, 1, 0]).unwrap();
    assert_eq!(c.ver, 5);
    assert_eq!(c.methods, vec![0]);
    let c = readConnect(&[5, 2, 0, 2]).unwrap();
    assert_eq!(c.methods, vec![0, 2]);
}

#[test]
fn bad_greetings_are_refused() {
    assert!(readConnect(&[5, 0]).is_none());
    assert!(readConnect(&[5, 2, 0]).is_none());
    assert!(readConnect(&[5, 1, 0, 1]).is_none());
}

#[test]
fn greeting_length_byte_is_taken_modulo_256() {
    let mut buf = vec![5u8, 0u8];
    buf.extend(vec![1u8; 256]);
    let c = readConnect(&buf).unwrap();
    assert!(c.methods.is_empty());
}

#[test]
fn command_bytes() {
    assert_eq!(Command::from(1), Ok(Command::Connect));
    assert_eq!(Command::from(2), Ok(Command::Bind));
    assert_eq!(Command::from(3), Ok(Command::Udp));
    assert_eq!(Command::from(0), Err(SocksError::InvalidCommand(0)));
    assert_eq!(Command::Udp.code(), 3);
}

#[test]
fn ipv4_request() {
    let r = readRequest(&[5, 1, 0, 1, 127, 0, 0, 1, 0, 80]).unwrap();
    assert_eq!(r.cmd, Command::Connect);
    assert!(matches!(r.addr, Addr::Ipv4([127, 0, 0, 1])));
    assert_eq!(r.port, 80);
}

#[test]
fn domain_request() {
    let mut buf = vec![5u8, 1, 0, 3, 11];
    buf.extend_from_slice(b"example.com");
    buf.extend_from_slice(&[1, 187]);
    let r = readRequest(&buf).unwrap();
    match r.addr {
        Addr::Domain(d) => assert_eq!(d, "example.com"),
        _ => panic!("expected a domain"),
    }
    assert_eq!(r.port, 443);
}

#[test]
fn ipv6_request() {
    let mut buf = vec![5u8, 2, 0, 4];
    buf.extend_from_slice(&[0, 0, 0, 0, 0, 0, 0, 0, 0, 0, 0, 0, 0, 0, 0, 1]);
    buf.extend_from_slice(&[0x1f, 0x90]);
    let r = readRequest(&buf).unwrap();
    assert_eq!(r.cmd, Command::Bind);
    assert!(matches!(r.addr, Addr::Ipv6(a) if a[15] == 1 && a[0] == 0));
    assert_eq!(r.port, 8080);
}

#[test]
fn request_errors() {
    assert_eq!(readRequest(&[5, 1, 0, 1, 1, 1]).unwrap_err(), SocksError::TooShort(6));
    assert_eq!(readRequest(&[4, 1, 0, 1, 1, 1, 1]).unwrap_err(), SocksError::BadVersion(4));
    assert_eq!(readRequest(&[5, 9, 0, 1, 1, 1, 1]).unwrap_err(), SocksError::InvalidCommand(9));
    assert_eq!(readRequest(&[5, 1, 0, 2, 1, 1, 1]).unwrap_err(), SocksError::InvalidAddressType(2));
    assert_eq!(readRequest(&[5, 1, 0, 1, 1, 1, 1]).unwrap_err(), SocksError::Truncated);
    assert_eq!(readRequest(&[5, 1, 0, 1, 1, 1, 1, 1, 0]).unwrap_err(), SocksError::Truncated);
    assert_eq!(readRequest(&[5, 1, 0, 3, 9, 1, 1]).unwrap_err(), SocksError::Truncated);
    assert_eq!(readRequest(&[5, 1, 0, 3, 1, 0xff, 0, 80]).unwrap_err(), SocksError::InvalidDomain);
}

#[test]
fn address_at_offset() {
    let (a, p) = Addr::from(&[9, 9, 1, 10, 0, 0, 1, 7], 2).unwrap();
    assert!(matches!(a, Addr::Ipv4([10, 0, 0, 1])));
    assert_eq!(p, 7);
    assert_eq!(Addr::from(&[1, 2], 2).unwrap_err(), SocksError::Truncated);
}

#[test]
fn pipe_read_outcomes() {
    let mut buf = CircBuf::with_capacity(16).unwrap();
    let mut p = ReadWritePipe::new(());
    assert!(!p.readable && !p.writable);
    assert!(ReadWritePipe::<()>::read_wanted(&buf));
    p.readable = true;
    {
        let [a, _] = buf.get_avail();
        a[0] = 42;
        a[1] = 43;
    }
    assert_eq!(p.read::<()>(&mut buf, IoOutcome::Transferred(2)), Ok(2));
    assert!(p.readable);
    assert_eq!(queued(&buf), vec![42, 43]);
    assert_eq!(p.read::<()>(&mut buf, IoOutcome::Transferred(0)), Ok(0));
    assert!(!p.readable);
    p.readable = true;
    assert_eq!(p.read::<()>(&mut buf, IoOutcome::WouldBlock), Ok(0));
    assert!(!p.readable);
    assert_eq!(p.read(&mut buf, IoOutcome::Failed("boom")), Err("boom"));
    assert_eq!(queued(&buf), vec![42, 43]);
}

#[test]
fn pipe_write_outcomes() {
    let mut buf = CircBuf::with_capacity(16).unwrap();
    buf.write(&[1, 2, 3]).unwrap();
    let mut p = ReadWritePipe::new(());
    p.writable = true;
    assert!(ReadWritePipe::<()>::write_wanted(&buf));
    assert_eq!(p.write::<()>(&mut buf, IoOutcome::Transferred(2)), Ok(2));
    assert_eq!(queued(&buf), vec![3]);
    assert!(p.writable);
    assert_eq!(p.write::<()>(&mut buf, IoOutcome::WouldBlock), Ok(0));
    assert!(!p.writable);
    assert_eq!(p.write(&mut buf, IoOutcome::Failed(7)), Err(7));
    assert_eq!(queued(&buf), vec![3]);
    p.writable = true;
    assert_eq!(p.write::<()>(&mut buf, IoOutcome::Transferred(0)), Ok(0));
    assert!(!p.writable);
    let empty = CircBuf::with_capacity(16).unwrap();
    assert!(!ReadWritePipe::<()>::write_wanted(&empty));
}

#[test]
fn tcp_update_state() {
    let mut t = Tcp { pipe: ReadWritePipe::new(()), handle: Handle { index: 0, seq: 0 } };
    let mut ev = no_event();
    ev.readable = true;
    assert_eq!(t.update_state(&ev), Ok(()));
    assert!(t.pipe.readable && !t.pipe.writable);
    let mut ev = no_event();
    ev.writable = true;
    ev.read_closed = true;
    assert_eq!(t.update_state(&ev), Err(SocksError::ConnectionReset));
    assert!(!t.pipe.readable && !t.pipe.writable);
    let mut ev = no_event();
    ev.readable = true;
    ev.error = true;
    assert_eq!(t.update_state(&ev), Err(SocksError::SocketError));
    assert!(!t.pipe.readable);
}

#[test]
fn connection_handshake_request_transfer() {
    let mut c = Connection::new(());
    assert_eq!(c.state, ConnectionState::Handshake);
    assert_eq!(c.buf_from_client.cap(), 8191);
    c.buf_from_client.write(&[5, 1, 0]).unwrap();
    match c.client_step() {
        Ok(ClientStep::Greeted(g)) => assert_eq!(g.methods, vec![0]),
        _ => panic!("expected a greeting"),
    }
    assert_eq!(c.state, ConnectionState::Request);
    assert!(c.buf_from_client.is_empty());
    assert_eq!(queued(&c.buf_to_client), vec![5, 0]);
    c.buf_from_client.write(&[5, 1, 0, 1, 10, 0, 0, 2, 0, 22]).unwrap();
    match c.client_step() {
        Ok(ClientStep::Connect(r)) => {
            assert!(matches!(r.addr, Addr::Ipv4([10, 0, 0, 2])));
            assert_eq!(r.port, 22);
        },
        _ => panic!("expected a request"),
    }
    assert_eq!(c.state, ConnectionState::Request);
    assert!(c.buf_from_client.is_empty());
    c.request_granted();
    assert_eq!(c.state, ConnectionState::Transfer);
    assert_eq!(queued(&c.buf_to_client), vec![5, 0, 5, 0, 0, 1, 0, 0, 0, 0, 0, 0]);
    c.buf_from_client.write(b"payload").unwrap();
    assert!(matches!(c.client_step(), Ok(ClientStep::Relay)));
    assert_eq!(queued(&c.buf_from_client), b"payload".to_vec());
}

#[test]
fn bad_handshake_is_refused() {
    let mut c = Connection::new(());
    c.buf_from_client.write(&[4, 7]).unwrap();
    assert!(matches!(c.client_step(), Err(SocksError::InvalidHandshake)));
    assert_eq!(c.state, ConnectionState::Handshake);
    assert_eq!(queued(&c.buf_from_client), vec![4, 7]);
    let mut empty = Connection::new(());
    assert!(matches!(empty.client_step(), Err(SocksError::InvalidHandshake)));
}

#[test]
fn bad_request_is_refused() {
    let mut c = Connection::new(());
    c.state = ConnectionState::Request;
    c.buf_from_client.write(&[5, 1, 0, 1]).unwrap();
    assert!(matches!(c.client_step(), Err(SocksError::TooShort(4))));
    assert_eq!(queued(&c.buf_from_client), vec![5, 1, 0, 1]);
}

#[test]
fn disconnect_and_stall_decisions() {
    let mut c: Connection<()> = Connection::new(());
    // neither side there
    assert!(c.should_disconnect());
    c.client = Some(Tcp { pipe: ReadWritePipe::new(()), handle: Handle { index: 0, seq: 0 } });
    c.remote = Some(Tcp { pipe: ReadWritePipe::new(()), handle: Handle { index: 1, seq: 1 } });
    assert!(!c.should_disconnect());
    assert!(c.relay_stalled());
    c.client.as_mut().unwrap().pipe.readable = true;
    assert!(c.relay_stalled()); // remote not writable
    c.remote.as_mut().unwrap().pipe.writable = true;
    assert!(!c.relay_stalled());
    c.remote = None;
    // remote gone and nothing queued for the client
    assert!(c.should_disconnect());
    c.buf_to_client.write(&[1]).unwrap();
    assert!(!c.should_disconnect());
}

fn tcp(index: usize) -> Tcp<()> {
    Tcp { pipe: ReadWritePipe::new(()), handle: Handle { index, seq: index } }
}

#[test]
fn pending_offers_all_queued_bytes() {
    let mut buf = CircBuf::with_capacity(8).unwrap();
    buf.write(&[1, 2, 3, 4, 5, 6]).unwrap();
    buf.advance_read(5).unwrap();
    buf.write(&[7, 8, 9, 10]).unwrap(); // wraps round the end of the storage
    let (a, b) = ReadWritePipe::<()>::pending(&buf);
    let mut all = a.to_vec();
    all.extend_from_slice(b);
    assert_eq!(all, vec![6, 7, 8, 9, 10]);
    assert!(!b.is_empty());
}

#[test]
fn feed_read_keeps_source_and_reports_more() {
    let mut buf = CircBuf::with_capacity(16).unwrap();
    let mut source = Some(tcp(3));
    {
        let [a, _] = buf.get_avail();
        a[0] = 9;
    }
    let (t, more) = feed_read::<(), ()>(&mut source, &mut buf, Some(IoOutcome::Transferred(1)));
    assert_eq!(t.count, 1);
    assert!(t.closed.is_none());
    assert!(more);
    assert!(source.is_some());
    assert_eq!(queued(&buf), vec![9]);
}

#[test]
fn feed_read_drops_failed_source() {
    let mut buf = CircBuf::with_capacity(16).unwrap();
    let mut source = Some(tcp(3));
    let (t, more) = feed_read(&mut source, &mut buf, Some(IoOutcome::Failed("reset")));
    assert!(source.is_none());
    let (closed, e) = t.closed.unwrap();
    assert_eq!(closed.handle, Handle { index: 3, seq: 3 });
    assert_eq!(e, "reset");
    assert!(!more);
}

#[test]
fn feed_read_without_source_or_read() {
    let mut buf = CircBuf::with_capacity(16).unwrap();
    buf.write(&[1]).unwrap();
    let mut none: Option<Tcp<()>> = None;
    let (t, more) = feed_read::<(), ()>(&mut none, &mut buf, None);
    assert_eq!(t.count, 0);
    assert!(more);
    let mut source = Some(tcp(1));
    let (t, _) = feed_read::<(), ()>(&mut source, &mut buf, None);
    assert_eq!(t.count, 0);
    assert!(source.is_some());
    assert_eq!(queued(&buf), vec![1]);
}

#[test]
fn feed_write_sends_and_drops_failed_dest() {
    let mut buf = CircBuf::with_capacity(16).unwrap();
    buf.write(&[1, 2, 3]).unwrap();
    let mut dest = Some(tcp(2));
    let t = feed_write::<(), ()>(&mut dest, &mut buf, Some(IoOutcome::Transferred(2)));
    assert_eq!(t.count, 2);
    assert!(dest.is_some());
    assert_eq!(queued(&buf), vec![3]);
    let t = feed_write(&mut dest, &mut buf, Some(IoOutcome::Failed(5)));
    assert!(dest.is_none());
    assert_eq!(t.closed.unwrap().1, 5);
    assert_eq!(queued(&buf), vec![3]);
}

#[test]
fn relay_keeps_byte_stream() {
    // bytes read in are written out in the same order, none lost or doubled
    let mut buf = CircBuf::with_capacity(8).unwrap();
    let mut source = Some(tcp(0));
    let mut dest = Some(tcp(1));
    let mut sent = Vec::new();
    for chunk in [[1u8, 2, 3], [4, 5, 6], [7, 8, 9]] {
        {
            let [a, b] = buf.get_avail();
            let n = a.len().min(3);
            a[..n].copy_from_slice(&chunk[..n]);
            b[..3 - n].copy_from_slice(&chunk[n..]);
        }
        feed_read::<(), ()>(&mut source, &mut buf, Some(IoOutcome::Transferred(3)));
        let (a, b) = ReadWritePipe::<()>::pending(&buf);
        let mut offered = a.to_vec();
        offered.extend_from_slice(b);
        sent.extend_from_slice(&offered[..2]);
        feed_write::<(), ()>(&mut dest, &mut buf, Some(IoOutcome::Transferred(2)));
    }
    sent.extend(queued(&buf));
    assert_eq!(sent, vec![1, 2, 3, 4, 5, 6, 7, 8, 9]);
}

#[test]
fn endpoints_of_tokens() {
    assert_eq!(endpoint_of(0), Endpoint::Client);
    assert_eq!(endpoint_of(1), Endpoint::Remote);
    assert_eq!(endpoint_of(7), Endpoint::Unknown);
}

#[test]
fn connection_teardown() {
    let mut c: Connection<()> = Connection::new(());
    c.handle = Some(Handle { index: 4, seq: 9 });
    c.client = Some(tcp(0));
    c.remote = Some(tcp(1));
    let closed = c.close_remote().unwrap();
    assert_eq!(closed.handle, Handle { index: 1, seq: 1 });
    assert!(c.remote.is_none() && c.client.is_some());
    let t = c.disconnect();
    assert!(t.client.is_some());
    assert!(t.remote.is_none());
    assert_eq!(t.context, Some(Handle { index: 4, seq: 9 }));
    assert!(c.client.is_none());
    assert!(c.close_client().is_none());
}
