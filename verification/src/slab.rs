use vstd::prelude::*;
use ochenslab::OchenSlab;

verus! {

/// Largest number of slots a slab of this library is made with: a slot takes
/// at most 63 bytes, so the storage of this many slots stays below
/// `isize::MAX` bytes, the most that one allocation may take.
pub const MAX_SLOTS: usize = usize::MAX / 128;

/// A value tagged with the sequence number it was stored under.
pub struct Versioned<T> {
    pub seq: usize,
    pub value: T,
}

impl<T> Versioned<T> {
    pub fn new(seq: usize, value: T) -> (r: Versioned<T>)
        ensures
            r.seq == seq,
            r.value == value,
    {
        Versioned { seq, value }
    }

    /// The value, if `seq` is the sequence number it was stored under.
    pub fn get(&self, seq: usize) -> (r: Option<&T>)
        ensures
            r == (if self.seq == seq {
                Some(&self.value)
            } else {
                None
            }),
    {
        if self.seq != seq {
            return None;
        }
        return Some(&self.value);
    }

    /// The value, mutably, if `seq` is the sequence number it was stored under.
    pub fn get_mut(&mut self, seq: usize) -> (r: Option<&mut T>)
        ensures
            r is Some <==> old(self).seq == seq,
            r is Some ==> *r.unwrap() == old(self).value && *final(self) == (Versioned {
                seq: old(self).seq,
                value: *final(r.unwrap()),
            }),
            r is None ==> *final(self) == *old(self),
    {
        if self.seq != seq {
            return None;
        }
        return Some(&mut self.value);
    }
}

/// Index of a slot and the sequence number its value was stored under.
#[derive(Debug, Copy, Clone, PartialEq, Eq, Structural)]
pub struct Handle {
    pub index: usize,
    pub seq: usize,
}

/// A context or event source, as the registry records it.
#[derive(Debug, Copy, Clone, PartialEq, Eq, Structural)]
pub struct SourceMapping {
    /// The context that the source's events go to.
    pub context: Handle,
    /// The token under which the context knows the source.
    pub token: usize,
}

/// What a registry slot holds besides its sequence number.
#[derive(Debug, Copy, Clone, PartialEq, Eq, Structural)]
pub enum Entry {
    /// A registered context; the context itself lives with the caller.
    Context,
    /// A registered event source.
    Source(SourceMapping),
}

/// `ochenslab::OchenSlab`, a slab of fixed capacity, declared opaque: its fields stay hidden.
#[verifier::external_type_specification]
#[verifier::external_body]
#[verifier::reject_recursive_types(T)]
pub struct ExOchenSlab<T>(OchenSlab<T>);

/// What an `ochenslab::OchenSlab` of versioned entries holds: the occupied
/// slot indices and their values.
pub uninterp spec fn slab_items(slab: OchenSlab<Versioned<Entry>>) -> Map<usize, Versioned<Entry>>;

/// The number of slots an `ochenslab::OchenSlab` was made with.
pub uninterp spec fn slab_capacity(slab: OchenSlab<Versioned<Entry>>) -> nat;

/// The free list of an `ochenslab::OchenSlab`: the indices of the free slots,
/// the one that the next insertion takes last.
pub uninterp spec fn slab_free(slab: OchenSlab<Versioned<Entry>>) -> Seq<usize>;

/// The free list of a fresh slab of `capacity` slots: `capacity - 1` down to 0.
pub open spec fn initial_free_list(capacity: nat) -> Seq<usize> {
    Seq::new(capacity, |i: int| (capacity - 1 - i) as usize)
}

/// Every occupied slot index lies below the capacity, and there are no more
/// occupied slots than slots.
pub open spec fn slab_wf(slab: OchenSlab<Versioned<Entry>>) -> bool {
    &&& slab_items(slab).dom().finite()
    &&& forall|i: usize| #[trigger] slab_items(slab).dom().contains(i) ==> i < slab_capacity(slab)
    &&& slab_items(slab).len() <= slab_capacity(slab)
}

/// `OchenSlab::with_capacity`: a slab with `capacity` slots, none occupied.
#[verifier::external_body]
fn slab_with_capacity(capacity: usize) -> (created: OchenSlab<Versioned<Entry>>)
    requires
        capacity <= MAX_SLOTS,
    ensures
        slab_items(created).dom().is_empty(),
        slab_capacity(created) == capacity,
        slab_free(created) == initial_free_list(capacity as nat),
{
    OchenSlab::with_capacity(capacity)
}

/// `OchenSlab::insert`: `None` when every slot is occupied, else the value
/// goes into the slot at the end of the free list, which leaves the list and
/// whose index comes back.
#[verifier::external_body]
fn slab_insert(slab: &mut OchenSlab<Versioned<Entry>>, value: Versioned<Entry>) -> (r: Option<
    usize,
>)
    ensures
        slab_capacity(*final(slab)) == slab_capacity(*old(slab)),
        slab_wf(*old(slab)) ==> slab_wf(*final(slab)),
        r is None <==> slab_items(*old(slab)).len() == slab_capacity(*old(slab)),
        r is None <==> slab_free(*old(slab)).len() == 0,
        r is None ==> slab_items(*final(slab)) == slab_items(*old(slab)) && slab_free(*final(slab))
            == slab_free(*old(slab)),
        r matches Some(i) ==> {
            &&& i == slab_free(*old(slab)).last()
            &&& slab_free(*final(slab)) == slab_free(*old(slab)).drop_last()
            &&& i < slab_capacity(*old(slab))
            &&& !slab_items(*old(slab)).dom().contains(i)
            &&& slab_items(*final(slab)) == slab_items(*old(slab)).insert(i, value)
        },
{
    slab.insert(value)
}

/// `OchenSlab::get`: the value in slot `index`, if it is occupied.
#[verifier::external_body]
fn slab_get(slab: &OchenSlab<Versioned<Entry>>, index: usize) -> (r: Option<&Versioned<Entry>>)
    ensures
        r == (if slab_items(*slab).dom().contains(index) {
            Some(&slab_items(*slab)[index])
        } else {
            None
        }),
{
    slab.get(index)
}

/// `OchenSlab::get_mut`: the value in slot `index`, mutably, if it is occupied;
/// what is written through it becomes the slot's value.
#[verifier::external_body]
fn slab_get_mut(slab: &mut OchenSlab<Versioned<Entry>>, index: usize) -> (r: Option<
    &mut Versioned<Entry>,
>)
    ensures
        slab_capacity(*final(slab)) == slab_capacity(*old(slab)),
        slab_free(*final(slab)) == slab_free(*old(slab)),
        r is Some <==> slab_items(*old(slab)).dom().contains(index),
        r is Some ==> *r.unwrap() == slab_items(*old(slab))[index] && slab_items(*final(slab))
            == slab_items(*old(slab)).insert(index, *final(r.unwrap())),
        r is None ==> slab_items(*final(slab)) == slab_items(*old(slab)),
{
    slab.get_mut(index)
}

/// `OchenSlab::remove`: takes the value out of slot `index` if it is
/// occupied, and puts the index at the end of the free list.
#[verifier::external_body]
fn slab_remove(slab: &mut OchenSlab<Versioned<Entry>>, index: usize) -> (r: Option<
    Versioned<Entry>,
>)
    ensures
        slab_capacity(*final(slab)) == slab_capacity(*old(slab)),
        slab_wf(*old(slab)) ==> slab_wf(*final(slab)),
        slab_items(*old(slab)).dom().contains(index) ==> r == Some(slab_items(*old(slab))[index])
            && slab_items(*final(slab)) == slab_items(*old(slab)).remove(index) && slab_free(
            *final(slab),
        ) == slab_free(*old(slab)).push(index),
        !slab_items(*old(slab)).dom().contains(index) ==> r is None && slab_items(*final(slab))
            == slab_items(*old(slab)) && slab_free(*final(slab)) == slab_free(*old(slab)),
{
    slab.remove(index)
}

/// A slab whose slots are reached through handles: a handle reaches its slot
/// only while the slot holds a value stored under the handle's sequence number.
pub struct VersionedSlab {
    pub slab: OchenSlab<Versioned<Entry>>,
}

impl View for VersionedSlab {
    type V = Map<usize, Versioned<Entry>>;

    open spec fn view(&self) -> Map<usize, Versioned<Entry>> {
        slab_items(self.slab)
    }
}

impl VersionedSlab {
    pub open spec fn wf(&self) -> bool {
        slab_wf(self.slab)
    }

    pub open spec fn capacity(&self) -> nat {
        slab_capacity(self.slab)
    }

    /// The indices of the free slots; the last is the one the next insertion takes.
    pub open spec fn free_list(&self) -> Seq<usize> {
        slab_free(self.slab)
    }

    /// The handle's slot holds a value stored under the handle's sequence number.
    pub open spec fn live(&self, handle: Handle) -> bool {
        &&& self@.dom().contains(handle.index)
        &&& self@[handle.index].seq == handle.seq
    }

    pub fn with_capacity(capacity: usize) -> (r: VersionedSlab)
        requires
            capacity <= MAX_SLOTS,
        ensures
            r.wf(),
            r@ == Map::<usize, Versioned<Entry>>::empty(),
            r.capacity() == capacity,
            r.free_list() == initial_free_list(capacity as nat),
    {
        VersionedSlab { slab: slab_with_capacity(capacity) }
    }

    /// The entry that the handle reaches, if any.
    pub fn get_ref_by_handle(&self, handle: Handle) -> (r: Option<&Entry>)
        ensures
            r == (if self.live(handle) {
                Some(&self@[handle.index].value)
            } else {
                None
            }),
    {
        let value = match slab_get(&self.slab, handle.index) {
            Some(value) => value,
            None => {
                return None;
            },
        };
        let value: &Entry = match value.get(handle.seq) {
            Some(value) => value,
            None => {
                return None;
            },
        };
        Some(value)
    }

    /// The entry that the handle reaches, if any, mutably; what is written
    /// through it becomes the entry of the handle's slot.
    pub fn get_ref_mut_by_handle(&mut self, handle: Handle) -> (r: Option<&mut Entry>)
        ensures
            r is Some <==> old(self).live(handle),
            final(self).capacity() == old(self).capacity(),
            final(self).free_list() == old(self).free_list(),
            r is Some ==> *r.unwrap() == old(self)@[handle.index].value && final(self)@ == old(
                self,
            )@.insert(
                handle.index,
                Versioned { seq: handle.seq, value: *final(r.unwrap()) },
            ),
            r is None ==> final(self)@ == old(self)@,
    {
        let value = match slab_get_mut(&mut self.slab, handle.index) {
            Some(value) => value,
            None => {
                return None;
            },
        };
        let value: &mut Entry = match value.get_mut(handle.seq) {
            Some(value) => value,
            None => {
                return None;
            },
        };
        Some(value)
    }

    /// Stores `value` under sequence number `seq` in a free slot, if there is one.
    pub fn insert(&mut self, seq: usize, value: Entry) -> (r: Option<usize>)
        requires
            old(self).wf(),
        ensures
            final(self).wf(),
            final(self).capacity() == old(self).capacity(),
            r is None <==> old(self)@.len() == old(self).capacity(),
            r is None <==> old(self).free_list().len() == 0,
            r is None ==> final(self)@ == old(self)@ && final(self).free_list() == old(
                self,
            ).free_list(),
            r matches Some(i) ==> {
                &&& i == old(self).free_list().last()
                &&& final(self).free_list() == old(self).free_list().drop_last()
                &&& i < old(self).capacity()
                &&& !old(self)@.dom().contains(i)
                &&& final(self)@ == old(self)@.insert(i, Versioned { seq, value })
            },
    {
        slab_insert(&mut self.slab, Versioned::new(seq, value))
    }

    /// Empties slot `index`, whatever it holds.
    pub fn remove(&mut self, index: usize) -> (r: Option<Versioned<Entry>>)
        requires
            old(self).wf(),
        ensures
            final(self).wf(),
            final(self).capacity() == old(self).capacity(),
            final(self)@ == old(self)@.remove(index),
            final(self).free_list() == (if old(self)@.dom().contains(index) {
                old(self).free_list().push(index)
            } else {
                old(self).free_list()
            }),
            r == (if old(self)@.dom().contains(index) {
                Some(old(self)@[index])
            } else {
                None
            }),
    {
        let r = slab_remove(&mut self.slab, index);
        proof {
            if !old(self)@.dom().contains(index) {
                assert(old(self)@.remove(index) =~= old(self)@);
            }
        }
        r
    }
}

} // verus!
