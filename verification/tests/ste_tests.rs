use ste_proxy::slab::{Entry, Handle, SourceMapping, Versioned, VersionedSlab};
use ste_proxy::ste::{Sequence, Ste, SteError};

#[test]
fn token_splits_into_index_and_seq() {
    let h = Handle::from_token(0x3_0005);
    assert_eq!(h, Handle { index: 5, seq: 3 });
    assert_eq!(h.to_token(), 0x3_0005);
}

#[test]
fn handle_token_round_trip() {
    let h = Handle { index: 0xffff, seq: 12345 };
    assert_eq!(Handle::from_token(h.to_token()), h);
    let t = 0xdead_beefusize;
    assert_eq!(Handle::from_token(t).to_token(), t);
}

#[test]
fn sequence_counts_up() {
    let mut s = Sequence::new();
    assert_eq!(s.next(), 0);
    assert_eq!(s.next(), 1);
    assert_eq!(s.next(), 2);
}

#[test]
fn versioned_get_checks_seq() {
    let mut v = Versioned::new(4, 10u32);
    assert_eq!(v.get(4), Some(&10));
    assert_eq!(v.get(5), None);
    if let Some(x) = v.get_mut(4) {
        *x = 11;
    }
    assert_eq!(v.get(4), Some(&11));
    assert!(v.get_mut(3).is_none());
}

#[test]
fn versioned_slab_handles() {
    let mut s = VersionedSlab::with_capacity(2);
    let i = s.insert(7, Entry::Context).unwrap();
    assert_eq!(s.get_ref_by_handle(Handle { index: i, seq: 7 }), Some(&Entry::Context));
    assert_eq!(s.get_ref_by_handle(Handle { index: i, seq: 8 }), None);
    let m = SourceMapping { context: Handle { index: 0, seq: 0 }, token: 3 };
    if let Some(e) = s.get_ref_mut_by_handle(Handle { index: i, seq: 7 }) {
        *e = Entry::Source(m);
    }
    assert_eq!(s.get_ref_by_handle(Handle { index: i, seq: 7 }), Some(&Entry::Source(m)));
    assert!(s.get_ref_mut_by_handle(Handle { index: i, seq: 1 }).is_none());
    assert!(s.insert(8, Entry::Context).is_some());
    assert!(s.insert(9, Entry::Context).is_none());
    assert!(s.remove(i).is_some());
    assert!(s.remove(i).is_none());
    assert_eq!(s.get_ref_by_handle(Handle { index: i, seq: 7 }), None);
}

#[test]
fn register_contexts_until_full() {
    let mut ste = Ste::new(2);
    let a = ste.register_context().unwrap();
    let b = ste.register_context().unwrap();
    assert_eq!(a.seq, 0);
    assert_eq!(b.seq, 1);
    assert_ne!(a.index, b.index);
    assert_eq!(ste.register_context(), Err(SteError::CapacityExceeded));
}

#[test]
fn deregistered_context_handle_is_stale() {
    let mut ste = Ste::new(1);
    let a = ste.register_context().unwrap();
    assert_eq!(ste.deregister_context(a), Ok(()));
    assert_eq!(ste.deregister_context(a), Err(SteError::ContextNotFound));
    let b = ste.register_context().unwrap();
    // the slot is reused, under a new sequence number
    assert_eq!(b.index, a.index);
    assert_ne!(b.seq, a.seq);
    assert_eq!(ste.deregister_context(a), Err(SteError::ContextNotFound));
    assert_eq!(ste.register_source(a, 0), Err(SteError::ContextNotFound));
    assert!(ste.register_source(b, 0).is_ok());
}

#[test]
fn events_reach_the_source_context() {
    let mut ste = Ste::new(4);
    let ctx = ste.register_context().unwrap();
    let client = ste.register_source(ctx, 0).unwrap();
    let remote = ste.register_source(ctx, 1).unwrap();
    assert_eq!(ste.dispatch(client.to_token()), Some((ctx, 0)));
    assert_eq!(ste.dispatch(remote.to_token()), Some((ctx, 1)));
    assert_eq!(ste.dispatch(Handle { index: client.index, seq: 77 }.to_token()), None);
}

#[test]
fn deregistered_source_gets_no_events() {
    let mut ste = Ste::new(4);
    let ctx = ste.register_context().unwrap();
    let src = ste.register_source(ctx, 5).unwrap();
    assert_eq!(ste.deregister_source(src), Ok(()));
    assert_eq!(ste.dispatch(src.to_token()), None);
    assert_eq!(ste.deregister_source(src), Err(SteError::SourceNotFound));
}

#[test]
fn deregistered_context_gets_no_events() {
    let mut ste = Ste::new(4);
    let ctx = ste.register_context().unwrap();
    let src = ste.register_source(ctx, 5).unwrap();
    assert_eq!(ste.deregister_context(ctx), Ok(()));
    assert_eq!(ste.dispatch(src.to_token()), None);
}

#[test]
fn sources_capacity_exceeded() {
    let mut ste = Ste::new(1);
    let ctx = ste.register_context().unwrap();
    let s1 = ste.register_source(ctx, 0).unwrap();
    assert_eq!(ste.register_source(ctx, 1), Err(SteError::SourcesCapacityExceeded));
    // the refused registration used up sequence number 1
    ste.forget_source(s1);
    let s2 = ste.register_source(ctx, 2).unwrap();
    assert_eq!(s2.index, s1.index);
    assert_eq!(s2.seq, 2);
    assert_eq!(ste.dispatch(s1.to_token()), None);
    assert_eq!(ste.dispatch(s2.to_token()), Some((ctx, 2)));
}

#[test]
fn first_n_registrations_succeed_then_refused() {
    let n = 5;
    let mut ste = Ste::new(n);
    let mut handles = Vec::new();
    for _ in 0..n {
        handles.push(ste.register_context().unwrap());
    }
    assert_eq!(ste.register_context(), Err(SteError::CapacityExceeded));
    for i in 0..n {
        for j in 0..i {
            assert_ne!(handles[i], handles[j]);
        }
    }
}

#[test]
fn registry_beyond_token_index_range() {
    let mut ste = Ste::new(0x10001);
    let ctx = ste.register_context().unwrap();
    let src = ste.register_source(ctx, 1).unwrap();
    assert_eq!(ste.dispatch(src.to_token()), Some((ctx, 1)));
}

#[test]
fn handle_from_token() {
    let h: Handle = Handle::from(0x2_0005usize);
    assert_eq!(h, Handle { index: 5, seq: 2 });
    assert_eq!(Handle { index: 5, seq: 2 }.to_token(), 0x2_0005);
}

#[test]
fn free_slots_are_taken_last_freed_first() {
    let mut ste = Ste::new(3);
    let a = ste.register_context().unwrap();
    let b = ste.register_context().unwrap();
    let c = ste.register_context().unwrap();
    assert_eq!((a.index, b.index, c.index), (0, 1, 2));
    ste.deregister_context(a).unwrap();
    ste.deregister_context(b).unwrap();
    assert_eq!(ste.register_context().unwrap().index, 1);
    assert_eq!(ste.register_context().unwrap().index, 0);
}

#[test]
fn source_slots_are_taken_last_freed_first() {
    let mut ste = Ste::new(2);
    let ctx = ste.register_context().unwrap();
    let s0 = ste.register_source(ctx, 0).unwrap();
    let s1 = ste.register_source(ctx, 1).unwrap();
    assert_eq!((s0.index, s1.index), (0, 1));
    ste.deregister_source(s0).unwrap();
    assert_eq!(ste.register_source(ctx, 2).unwrap().index, 0);
}
