use vstd::prelude::*;
use crate::slab::{Entry, Handle, MAX_SLOTS, SourceMapping, Versioned, VersionedSlab};

verus! {

/// The event token that stands for a handle: the sequence number above the
/// 16 low bits, which hold the slot index.
pub open spec fn token_of(handle: Handle) -> usize {
    ((handle.seq << 16usize) | handle.index) as usize
}

/// No bit of the sequence number is lost in the token.
pub open spec fn seq_fits_token(seq: usize) -> bool {
    (seq << 16usize) >> 16usize == seq
}

/// The handle that an event token stands for.
pub open spec fn handle_of(token: usize) -> Handle {
    Handle { index: token & 0xffff, seq: token >> 16usize }
}

impl Handle {
    /// Splits an event token into slot index (16 low bits) and sequence number.
    pub fn from_token(token: usize) -> (r: Handle)
        ensures
            r == handle_of(token),
    {
        Handle { index: token & 0xffff, seq: token >> 16 }
    }

    /// The event token for this handle; the slot index must fit in 16 bits.
    /// Bits of the sequence number that do not fit in the token are dropped.
    pub fn to_token(&self) -> (r: usize)
        requires
            self.index < 0x10000,
        ensures
            r == token_of(*self),
    {
        (self.seq << 16) | self.index
    }
}

/// An event token as the handle it stands for.
impl From<usize> for Handle {
    fn from(token: usize) -> (r: Handle) {
        Handle::from_token(token)
    }
}

impl vstd::std_specs::convert::FromSpecImpl<usize> for Handle {
    open spec fn obeys_from_spec() -> bool {
        true
    }

    open spec fn from_spec(token: usize) -> Handle {
        handle_of(token)
    }
}

/// A counter that hands out 0, 1, 2, ...
pub struct Sequence {
    seq: usize,
}

impl Sequence {
    /// The number that `next` returns.
    pub closed spec fn value(&self) -> usize {
        self.seq
    }

    pub fn new() -> (r: Sequence)
        ensures
            r.value() == 0,
    {
        Sequence { seq: 0 }
    }

    /// Returns the counter and moves it on by one.
    pub fn next(&mut self) -> (r: usize)
        requires
            old(self).value() < usize::MAX,
        ensures
            r == old(self).value(),
            final(self).value() == old(self).value() + 1,
    {
        let ret = self.seq;
        self.seq = self.seq + 1;
        ret
    }
}

/// Why a registry operation was refused.
#[derive(Debug, Copy, Clone, PartialEq, Eq, Structural)]
pub enum SteError {
    /// Every context slot is taken.
    CapacityExceeded,
    /// The context handle reaches no registered context.
    ContextNotFound,
    /// Every source slot is taken.
    SourcesCapacityExceeded,
    /// The source handle reaches no registered source.
    SourceNotFound,
}

/// The registry of an event loop: which contexts are registered, which event
/// sources are registered and to which context each one's events go.
/// Handles carry sequence numbers, so a handle whose slot has been emptied
/// and filled again reaches nothing.
pub struct Ste {
    mapping_seq: Sequence,
    contexts_seq: Sequence,
    mapping: VersionedSlab,
    contexts: VersionedSlab,
}

impl Ste {
    /// Registered contexts by slot.
    pub closed spec fn contexts(&self) -> Map<usize, Versioned<Entry>> {
        self.contexts@
    }

    /// Registered sources by slot.
    pub closed spec fn sources(&self) -> Map<usize, Versioned<Entry>> {
        self.mapping@
    }

    /// Free context slots; the last is the one the next context registration takes.
    pub closed spec fn free_context_slots(&self) -> Seq<usize> {
        self.contexts.free_list()
    }

    /// Free source slots; the last is the one the next source registration takes.
    pub closed spec fn free_source_slots(&self) -> Seq<usize> {
        self.mapping.free_list()
    }

    /// Number of context slots, which is also the number of source slots.
    pub closed spec fn max_contexts(&self) -> nat {
        self.contexts.capacity()
    }

    /// Sequence number of the next context registration.
    pub closed spec fn next_context_seq(&self) -> usize {
        self.contexts_seq.value()
    }

    /// Sequence number of the next source registration.
    pub closed spec fn next_source_seq(&self) -> usize {
        self.mapping_seq.value()
    }

    pub closed spec fn wf(&self) -> bool {
        &&& self.contexts.wf()
        &&& self.mapping.wf()
        &&& self.mapping.capacity() == self.contexts.capacity()
        &&& forall|i: usize| #[trigger]
            self.contexts@.dom().contains(i) ==> self.contexts@[i].seq < self.contexts_seq.value()
                && self.contexts@[i].value == Entry::Context
        &&& forall|i: usize| #[trigger]
            self.mapping@.dom().contains(i) ==> self.mapping@[i].seq < self.mapping_seq.value()
                && self.mapping@[i].value is Source
    }

    /// The handle reaches a registered context.
    pub open spec fn context_live(&self, handle: Handle) -> bool {
        &&& self.contexts().dom().contains(handle.index)
        &&& self.contexts()[handle.index].seq == handle.seq
    }

    /// The handle reaches a registered source.
    pub open spec fn source_live(&self, handle: Handle) -> bool {
        &&& self.sources().dom().contains(handle.index)
        &&& self.sources()[handle.index].seq == handle.seq
    }

    /// Where an event that carries `token` goes: the context and the token of
    /// the source that the token's handle reaches, if it reaches a source whose
    /// context is registered.
    pub open spec fn route(&self, token: usize) -> Option<(Handle, usize)> {
        let h = handle_of(token);
        if self.source_live(h) {
            match self.sources()[h.index].value {
                Entry::Source(m) => if self.context_live(m.context) {
                    Some((m.context, m.token))
                } else {
                    None
                },
                Entry::Context => None,
            }
        } else {
            None
        }
    }

    /// What `register_context` may leave behind and return.
    pub open spec fn register_context_post(&self, post: Ste, r: Result<Handle, SteError>) -> bool {
        &&& post.wf()
        &&& post.max_contexts() == self.max_contexts()
        &&& post.next_context_seq() == self.next_context_seq() + 1
        &&& post.next_source_seq() == self.next_source_seq()
        &&& post.sources() == self.sources()
        &&& post.free_source_slots() == self.free_source_slots()
        &&& (r is Err <==> self.contexts().len() == self.max_contexts())
        &&& (r is Err <==> self.free_context_slots().len() == 0)
        &&& match r {
            Ok(h) => {
                &&& h.index == self.free_context_slots().last()
                &&& post.free_context_slots() == self.free_context_slots().drop_last()
                &&& post.contexts().len() == self.contexts().len() + 1
                &&& h.seq == self.next_context_seq()
                &&& h.index < self.max_contexts()
                &&& !self.contexts().dom().contains(h.index)
                &&& post.contexts() == self.contexts().insert(
                    h.index,
                    Versioned { seq: h.seq, value: Entry::Context },
                )
            },
            Err(e) => {
                &&& e == SteError::CapacityExceeded
                &&& self.contexts().len() == self.max_contexts()
                &&& post.contexts() == self.contexts()
                &&& post.free_context_slots() == self.free_context_slots()
            },
        }
    }

    /// What `register_source` may leave behind and return.
    pub open spec fn register_source_post(
        &self,
        context: Handle,
        token: usize,
        post: Ste,
        r: Result<Handle, SteError>,
    ) -> bool {
        &&& post.wf()
        &&& post.max_contexts() == self.max_contexts()
        &&& post.next_context_seq() == self.next_context_seq()
        &&& post.contexts() == self.contexts()
        &&& post.free_context_slots() == self.free_context_slots()
        &&& (r == Err::<Handle, SteError>(SteError::ContextNotFound) <==> !self.context_live(
            context,
        ))
        &&& (r == Err::<Handle, SteError>(SteError::SourcesCapacityExceeded) <==> (
        self.context_live(context) && self.sources().len() == self.max_contexts()))
        &&& match r {
            Ok(h) => {
                &&& h.index == self.free_source_slots().last()
                &&& post.free_source_slots() == self.free_source_slots().drop_last()
                &&& post.sources().len() == self.sources().len() + 1
                &&& self.context_live(context)
                &&& h.seq == self.next_source_seq()
                &&& h.index < self.max_contexts()
                &&& !self.sources().dom().contains(h.index)
                &&& post.next_source_seq() == self.next_source_seq() + 1
                &&& post.sources() == self.sources().insert(
                    h.index,
                    Versioned {
                        seq: h.seq,
                        value: Entry::Source(SourceMapping { context, token }),
                    },
                )
            },
            Err(SteError::ContextNotFound) => {
                &&& !self.context_live(context)
                &&& post.next_source_seq() == self.next_source_seq()
                &&& post.sources() == self.sources()
                &&& post.free_source_slots() == self.free_source_slots()
            },
            Err(SteError::SourcesCapacityExceeded) => {
                &&& self.context_live(context)
                &&& self.sources().len() == self.max_contexts()
                &&& self.free_source_slots().len() == 0
                &&& post.next_source_seq() == self.next_source_seq() + 1
                &&& post.sources() == self.sources()
                &&& post.free_source_slots() == self.free_source_slots()
            },
            Err(_) => false,
        }
    }

    /// Whether a context registration has a sequence number left.
    pub fn context_seq_left(&self) -> (r: bool)
        ensures
            r == (self.next_context_seq() < usize::MAX),
    {
        self.contexts_seq.seq < usize::MAX
    }

    /// Whether a source registration has a sequence number left.
    pub fn source_seq_left(&self) -> (r: bool)
        ensures
            r == (self.next_source_seq() < usize::MAX),
    {
        self.mapping_seq.seq < usize::MAX
    }

    /// A registry for up to `max_contexts` contexts and as many sources.
    pub fn new(max_contexts: usize) -> (r: Ste)
        requires
            max_contexts <= MAX_SLOTS,
        ensures
            r.wf(),
            r.max_contexts() == max_contexts,
            r.contexts().dom().is_empty(),
            r.sources().dom().is_empty(),
            r.next_context_seq() == 0,
            r.next_source_seq() == 0,
            r.free_context_slots() == crate::slab::initial_free_list(max_contexts as nat),
            r.free_source_slots() == crate::slab::initial_free_list(max_contexts as nat),
    {
        Ste {
            mapping_seq: Sequence::new(),
            contexts_seq: Sequence::new(),
            mapping: VersionedSlab::with_capacity(max_contexts),
            contexts: VersionedSlab::with_capacity(max_contexts),
        }
    }

    /// Registers a context in a free context slot and returns its handle. A
    /// sequence number is used up even when every slot is taken.
    pub fn register_context(&mut self) -> (r: Result<Handle, SteError>)
        requires
            old(self).wf(),
            old(self).next_context_seq() < usize::MAX,
        ensures
            old(self).register_context_post(*final(self), r),
            r matches Ok(h) ==> final(self).context_live(h),
    {
        let seq = self.contexts_seq.next();
        let index = match self.contexts.insert(seq, Entry::Context) {
            None => {
                return Err(SteError::CapacityExceeded);
            },
            Some(index) => index,
        };
        let handle = Handle { index, seq };
        Ok(handle)
    }

    /// Records an event source of the context `context`, known to the context
    /// by `token`, and returns the source's handle. Refused when `context`
    /// reaches no registered context, or when every source slot is taken (a
    /// sequence number is then used up).
    pub fn register_source(&mut self, context: Handle, token: usize) -> (r: Result<
        Handle,
        SteError,
    >)
        requires
            old(self).wf(),
            old(self).context_live(context) ==> old(self).next_source_seq() < usize::MAX,
        ensures
            old(self).register_source_post(context, token, *final(self), r),
            r matches Ok(h) ==> final(self).source_live(h),
    {
        if self.contexts.get_ref_by_handle(context).is_none() {
            return Err(SteError::ContextNotFound);
        }
        let seq = self.mapping_seq.next();
        let mapping = match self.mapping.insert(seq, Entry::Source(SourceMapping { context, token }))
        {
            Some(mapping) => mapping,
            None => {
                return Err(SteError::SourcesCapacityExceeded);
            },
        };
        Ok(Handle { index: mapping, seq })
    }

    /// Empties the source slot of `source`, as when the event loop refused the
    /// source after `register_source` had recorded it.
    pub fn forget_source(&mut self, source: Handle)
        requires
            old(self).wf(),
        ensures
            final(self).wf(),
            final(self).max_contexts() == old(self).max_contexts(),
            final(self).next_context_seq() == old(self).next_context_seq(),
            final(self).next_source_seq() == old(self).next_source_seq(),
            final(self).contexts() == old(self).contexts(),
            final(self).free_context_slots() == old(self).free_context_slots(),
            final(self).sources() == old(self).sources().remove(source.index),
            final(self).free_source_slots() == (if old(self).sources().dom().contains(
                source.index,
            ) {
                old(self).free_source_slots().push(source.index)
            } else {
                old(self).free_source_slots()
            }),
    {
        self.mapping.remove(source.index);
    }

    /// Removes the source that `source_handle` reaches; refused if it reaches none.
    pub fn deregister_source(&mut self, source_handle: Handle) -> (r: Result<(), SteError>)
        requires
            old(self).wf(),
        ensures
            final(self).wf(),
            final(self).max_contexts() == old(self).max_contexts(),
            final(self).next_context_seq() == old(self).next_context_seq(),
            final(self).next_source_seq() == old(self).next_source_seq(),
            final(self).contexts() == old(self).contexts(),
            final(self).free_context_slots() == old(self).free_context_slots(),
            r is Ok <==> old(self).source_live(source_handle),
            r is Ok ==> final(self).sources() == old(self).sources().remove(source_handle.index)
                && final(self).free_source_slots() == old(self).free_source_slots().push(
                source_handle.index,
            ),
            r is Err ==> r == Err::<(), SteError>(SteError::SourceNotFound) && final(self).sources()
                == old(self).sources() && final(self).free_source_slots()
                == old(self).free_source_slots(),
            !final(self).source_live(source_handle),
    {
        if self.mapping.get_ref_by_handle(source_handle).is_none() {
            return Err(SteError::SourceNotFound);
        }
        self.mapping.remove(source_handle.index);
        Ok(())
    }

    /// Removes the context that `context` reaches; refused if it reaches none.
    /// The context's sources stay registered.
    pub fn deregister_context(&mut self, context: Handle) -> (r: Result<(), SteError>)
        requires
            old(self).wf(),
        ensures
            final(self).wf(),
            final(self).max_contexts() == old(self).max_contexts(),
            final(self).next_context_seq() == old(self).next_context_seq(),
            final(self).next_source_seq() == old(self).next_source_seq(),
            final(self).sources() == old(self).sources(),
            final(self).free_source_slots() == old(self).free_source_slots(),
            r is Ok <==> old(self).context_live(context),
            r is Ok ==> final(self).contexts() == old(self).contexts().remove(context.index)
                && final(self).free_context_slots() == old(self).free_context_slots().push(
                context.index,
            ),
            r is Err ==> r == Err::<(), SteError>(SteError::ContextNotFound) && final(self).contexts()
                == old(self).contexts() && final(self).free_context_slots()
                == old(self).free_context_slots(),
            !final(self).context_live(context),
    {
        if self.contexts.get_ref_by_handle(context).is_none() {
            return Err(SteError::ContextNotFound);
        }
        self.contexts.remove(context.index);
        Ok(())
    }

    /// Where an event with event token `token` goes: the context that its
    /// source belongs to and the source's token, or `None` for a token of a
    /// source or context that is gone.
    pub fn dispatch(&self, token: usize) -> (r: Option<(Handle, usize)>)
        requires
            self.wf(),
        ensures
            r == self.route(token),
    {
        let handle = Handle::from_token(token);
        let mapping = match self.mapping.get_ref_by_handle(handle) {
            Some(Entry::Source(mapping)) => *mapping,
            _ => {
                return None;
            },
        };
        if self.contexts.get_ref_by_handle(mapping.context).is_none() {
            return None;
        }
        Some((mapping.context, mapping.token))
    }
}

/// Splitting the event token of a handle gives the handle back, when the
/// slot index fits in 16 bits and the sequence number in the rest of the token.
pub proof fn lemma_token_round_trip(h: Handle)
    requires
        h.index < 0x10000,
        seq_fits_token(h.seq),
    ensures
        handle_of(token_of(h)) == h,
{
    let i = h.index;
    let s = h.seq;
    assert((s << 16usize) >> 16usize == s);
    assert(((s << 16usize) | i) & 0xffff == i && ((s << 16usize) | i) >> 16usize == s)
        by (bit_vector)
        requires
            i < 0x10000,
            (s << 16usize) >> 16usize == s,
    ;
}

/// Every event token is the token of the handle it stands for.
pub proof fn lemma_handle_round_trip(token: usize)
    ensures
        handle_of(token).index < 0x10000,
        token_of(handle_of(token)) == token,
{
    assert((token & 0xffff) < 0x10000 && (((token >> 16usize) << 16usize) | (token & 0xffff))
        == token) by (bit_vector);
}

/// A handle that reaches no registered context, issued before, reaches none
/// after a further context registration either: slots are refilled only
/// under new sequence numbers.
pub proof fn lemma_stale_context_stays_stale(
    s: Ste,
    post: Ste,
    r: Result<Handle, SteError>,
    h: Handle,
)
    requires
        s.wf(),
        !s.context_live(h),
        h.seq < s.next_context_seq(),
        s.register_context_post(post, r),
    ensures
        !post.context_live(h),
        h.seq < post.next_context_seq(),
{
}

/// A handle that reaches a registered context carries a sequence number
/// below the next one to be handed out.
pub proof fn lemma_live_context_seq_below_counter(s: Ste, h: Handle)
    requires
        s.wf(),
        s.context_live(h),
    ensures
        h.seq < s.next_context_seq(),
{
}

/// A handle that reaches a registered source carries a sequence number
/// below the next one to be handed out.
pub proof fn lemma_live_source_seq_below_counter(s: Ste, h: Handle)
    requires
        s.wf(),
        s.source_live(h),
    ensures
        h.seq < s.next_source_seq(),
{
}

/// A context registration hands out a handle unlike every handle handed out
/// before it (all of which carry a sequence number below the counter, which
/// no operation moves back).
pub proof fn lemma_context_handle_fresh(s: Ste, post: Ste, fresh: Handle, earlier: Handle)
    requires
        s.wf(),
        earlier.seq < s.next_context_seq(),
        s.register_context_post(post, Ok(fresh)),
    ensures
        fresh != earlier,
        earlier.seq < post.next_context_seq(),
{
}

/// A source registration hands out a handle unlike every handle handed out
/// before it.
pub proof fn lemma_source_handle_fresh(
    s: Ste,
    context: Handle,
    token: usize,
    post: Ste,
    fresh: Handle,
    earlier: Handle,
)
    requires
        s.wf(),
        earlier.seq < s.next_source_seq(),
        s.register_source_post(context, token, post, Ok(fresh)),
    ensures
        fresh != earlier,
        earlier.seq < post.next_source_seq(),
{
}

/// While fewer contexts are registered than there are slots, a context
/// registration succeeds and registers one more; once all slots are taken it
/// is refused and nothing changes.
pub proof fn lemma_register_context_until_full(s: Ste, post: Ste, r: Result<Handle, SteError>)
    requires
        s.wf(),
        s.register_context_post(post, r),
    ensures
        s.contexts().len() < s.max_contexts() ==> r is Ok && post.contexts().len()
            == s.contexts().len() + 1,
        s.contexts().len() == s.max_contexts() ==> r == Err::<Handle, SteError>(
            SteError::CapacityExceeded,
        ) && post.contexts() == s.contexts(),
{
}

/// Two successful context registrations, one after the other, hand out
/// different handles.
pub proof fn lemma_context_handles_differ(
    s0: Ste,
    s1: Ste,
    s2: Ste,
    h1: Handle,
    r2: Result<Handle, SteError>,
)
    requires
        s0.wf(),
        s0.register_context_post(s1, Ok(h1)),
        s1.register_context_post(s2, r2),
    ensures
        r2 matches Ok(h2) ==> h2 != h1,
        s2.context_live(h1) <==> r2 is Ok || s1.context_live(h1),
{
}

/// An event goes to the context of its source, with the source's token,
/// exactly when the token's low 16 bits name a source slot that holds a
/// source stored under the token's high bits, and that source's context slot
/// holds a context stored under the context handle's sequence number; no
/// other condition (such as how recently the source or context was
/// registered) drops it.
pub proof fn lemma_route_delivers(s: Ste, token: usize, m: SourceMapping)
    requires
        s.sources().dom().contains(token & 0xffff),
        s.sources()[token & 0xffff].seq == token >> 16usize,
        s.sources()[token & 0xffff].value == Entry::Source(m),
        s.contexts().dom().contains(m.context.index),
        s.contexts()[m.context.index].seq == m.context.seq,
    ensures
        s.route(token) == Some((m.context, m.token)),
{
}

/// An event is delivered only to the registered context of a registered
/// source that the token's bits name, with that source's token.
pub proof fn lemma_route_only_to_live(s: Ste, token: usize)
    ensures
        match s.route(token) {
            Some((c, k)) => {
                &&& s.sources().dom().contains(token & 0xffff)
                &&& s.sources()[token & 0xffff].seq == token >> 16usize
                &&& s.sources()[token & 0xffff].value == Entry::Source(
                    SourceMapping { context: c, token: k },
                )
                &&& s.contexts().dom().contains(c.index)
                &&& s.contexts()[c.index].seq == c.seq
            },
            None => true,
        },
{
}

/// A token that routes somewhere keeps routing to the same place after any
/// context registration.
pub proof fn lemma_route_survives_context_registration(
    s: Ste,
    post: Ste,
    r: Result<Handle, SteError>,
    token: usize,
)
    requires
        s.wf(),
        s.register_context_post(post, r),
        s.route(token) is Some,
    ensures
        post.route(token) == s.route(token),
{
}

/// A token that routes somewhere keeps routing to the same place after any
/// source registration.
pub proof fn lemma_route_survives_source_registration(
    s: Ste,
    context: Handle,
    source_token: usize,
    post: Ste,
    r: Result<Handle, SteError>,
    token: usize,
)
    requires
        s.wf(),
        s.register_source_post(context, source_token, post, r),
        s.route(token) is Some,
    ensures
        post.route(token) == s.route(token),
{
}

/// An event that carries the token of a source just registered reaches the
/// source's context with the source's token.
pub proof fn lemma_registered_source_routes(
    s: Ste,
    post: Ste,
    context: Handle,
    token: usize,
    h: Handle,
)
    requires
        s.wf(),
        s.register_source_post(context, token, post, Ok(h)),
        h.index < 0x10000,
        seq_fits_token(h.seq),
    ensures
        post.route(token_of(h)) == Some((context, token)),
{
    lemma_token_round_trip(h);
}

/// An event whose token stands for a handle that reaches no source goes nowhere.
pub proof fn lemma_stale_source_routes_nowhere(s: Ste, h: Handle)
    requires
        !s.source_live(h),
        h.index < 0x10000,
        seq_fits_token(h.seq),
    ensures
        s.route(token_of(h)) is None,
{
    lemma_token_round_trip(h);
}

/// Once a context is deregistered, events of its sources go nowhere.
pub proof fn lemma_deregistered_context_gets_no_events(s: Ste, token: usize, context: Handle)
    requires
        !s.context_live(context),
        s.source_live(handle_of(token)),
        s.sources()[handle_of(token).index].value matches Entry::Source(m) && m.context == context,
    ensures
        s.route(token) is None,
{
}

} // verus!
