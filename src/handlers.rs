//! Observer handler lists, held in a `SmallVec` with two inline slots.
use crate::entity::EntityId;
use smallvec::SmallVec;
use vstd::prelude::*;

verus! {

/// The handlers registered for one entity: the observing entities, in
/// registration order.
#[verifier::external_body]
pub struct Handlers {
    list: SmallVec<[EntityId; 2]>,
}

/// The entities a handler list holds, in order.
pub uninterp spec fn handlers_of(h: Handlers) -> Seq<EntityId>;

/// Relies on `SmallVec::new`: a new vector is empty.
#[verifier::external_body]
pub(crate) fn new_handlers() -> (r: Handlers)
    ensures
        handlers_of(r) == Seq::<EntityId>::empty(),
{
    Handlers { list: SmallVec::new() }
}

/// Relies on `SmallVec::len`: the number of elements stored.
#[verifier::external_body]
pub(crate) fn handlers_len(h: &Handlers) -> (r: usize)
    ensures
        r == handlers_of(*h).len(),
{
    h.list.len()
}

/// Relies on `SmallVec`'s `Index<usize>`, which indexes its slice.
#[verifier::external_body]
pub(crate) fn handler_at(h: &Handlers, i: usize) -> (r: EntityId)
    requires
        i < handlers_of(*h).len(),
    ensures
        r == handlers_of(*h)[i as int],
{
    h.list[i]
}

/// Relies on `SmallVec::push`: appends one element at the end. (Its
/// capacity check can only fail after an allocation of more than 2^62
/// bytes, which aborts first.)
#[verifier::external_body]
pub(crate) fn push_handler(h: &mut Handlers, id: EntityId)
    ensures
        handlers_of(*final(h)) == handlers_of(*old(h)).push(id),
{
    h.list.push(id)
}

} // verus!

verus! {

impl Handlers {
    /// The observing entities, in registration order.
    pub fn to_vec(&self) -> (r: Vec<EntityId>)
        ensures
            r@ == handlers_of(*self),
    {
        let n = handlers_len(self);
        let mut r: Vec<EntityId> = Vec::new();
        let mut i: usize = 0;
        while i < n
            invariant
                n == handlers_of(*self).len(),
                i <= n,
                r@ == handlers_of(*self).subrange(0, i as int),
            decreases n - i,
        {
            r.push(handler_at(self, i));
            i = i + 1;
        }
        assert(handlers_of(*self).subrange(0, n as int) == handlers_of(*self));
        r
    }
}

} // verus!
