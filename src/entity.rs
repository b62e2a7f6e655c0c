use crate::app::{is_live, AppContext, AppError, ModelContext};
use std::marker::PhantomData;
use vstd::prelude::*;

verus! {

/// Key of a slot in the entity store. Keys are handed out in insertion order
/// and never reused.
#[derive(Clone, Copy, Debug, PartialEq, Eq, Hash, Structural)]
pub struct EntityId {
    pub index: usize,
}

/// Key of a slot in the window store.
#[derive(Clone, Copy, Debug, PartialEq, Eq, Hash, Structural)]
pub struct WindowId {
    pub index: usize,
}

/// What an entity slot holds.
pub enum Slot<V> {
    /// The entity's current value.
    Occupied(V),
    /// The value is lent to an update in progress.
    CheckedOut,
    /// The entity was released; weak handles to it no longer upgrade.
    Released,
}

/// A deferred action, applied once the outermost update has returned.
#[derive(Clone, Copy, Debug, PartialEq, Eq, Structural)]
pub enum Effect {
    /// The entity changed: run its observers.
    Notify(EntityId),
}

/// Typed, cloneable reference to an entity.
pub struct Handle<T> {
    pub id: EntityId,
    pub entity_type: PhantomData<T>,
}

/// Non-owning reference to an entity; must be upgraded before use.
pub struct WeakHandle<T> {
    pub id: EntityId,
    pub entity_type: PhantomData<T>,
}

impl<T> Handle<T> {
    pub fn new(id: EntityId) -> (r: Self)
        ensures
            r.id == id,
    {
        Handle { id, entity_type: PhantomData }
    }

    /// A non-owning reference to the same entity.
    pub fn downgrade(&self) -> (r: WeakHandle<T>)
        ensures
            r.id == self.id,
    {
        WeakHandle { id: self.id, entity_type: PhantomData }
    }

    /// Checks out the entity for an update in `cx`: returns its value and the
    /// scope to hand back to `AppContext::finish_update`.
    pub fn update(&self, cx: &mut AppContext<T>) -> (r: (T, ModelContext<T>))
        requires
            old(cx).wf(),
            is_live(old(cx).slots(), self.id),
            old(cx).pending_updates < usize::MAX,
        ensures
            final(cx).wf(),
            Slot::Occupied(r.0) == old(cx).slots()[self.id.index as int],
            r.1.entity_id == self.id,
            final(cx).slots() == old(cx).slots().update(self.id.index as int, Slot::CheckedOut),
            final(cx).observers@ == old(cx).observers@,
            final(cx).queue() == old(cx).queue(),
            final(cx).windows@ == old(cx).windows@,
            final(cx).pending_updates == old(cx).pending_updates + 1,
            final(cx).flush_limit == old(cx).flush_limit,
            final(cx).unit_entity_id == old(cx).unit_entity_id,
    {
        cx.update_entity(self)
    }
}

impl<T> WeakHandle<T> {
    /// A handle to the entity, or `None` once it has been released.
    pub fn upgrade(&self, cx: &AppContext<T>) -> (r: Option<Handle<T>>)
        ensures
            r is Some <==> (self.id.index < cx.slots().len() && !(cx.slots()[self.id.index as int] is Released)),
            r is Some ==> r->0.id == self.id,
    {
        if cx.is_alive(self.id) {
            Some(Handle::new(self.id))
        } else {
            None
        }
    }

    /// Checks out the entity for an update as `Handle::update` does, or
    /// returns `EntityReleased` when it has been released. Updating an entity
    /// that is already checked out is a programming error.
    pub fn update(&self, cx: &mut AppContext<T>) -> (r: Result<(T, ModelContext<T>), AppError>)
        requires
            old(cx).wf(),
            self.id.index < old(cx).slots().len() ==> !(old(cx).slots()[self.id.index as int] is CheckedOut),
            old(cx).pending_updates < usize::MAX,
        ensures
            final(cx).wf(),
            r is Err <==> !is_live(old(cx).slots(), self.id),
            r is Err ==> r->Err_0 == AppError::EntityReleased && *final(cx) == *old(cx),
            r is Ok ==> {
                &&& Slot::Occupied(r->Ok_0.0) == old(cx).slots()[self.id.index as int]
                &&& r->Ok_0.1.entity_id == self.id
                &&& final(cx).slots() == old(cx).slots().update(self.id.index as int, Slot::CheckedOut)
                &&& final(cx).observers@ == old(cx).observers@
                &&& final(cx).queue() == old(cx).queue()
                &&& final(cx).windows@ == old(cx).windows@
                &&& final(cx).pending_updates == old(cx).pending_updates + 1
                &&& final(cx).flush_limit == old(cx).flush_limit
                &&& final(cx).unit_entity_id == old(cx).unit_entity_id
            },
    {
        match self.upgrade(cx) {
            Some(this) => Ok(cx.update_entity(&this)),
            None => Err(AppError::EntityReleased),
        }
    }
}

impl<T> Clone for Handle<T> {
    fn clone(&self) -> (r: Self)
        ensures
            r.id == self.id,
    {
        Handle { id: self.id, entity_type: PhantomData }
    }
}

impl<T> Clone for WeakHandle<T> {
    fn clone(&self) -> (r: Self)
        ensures
            r.id == self.id,
    {
        WeakHandle { id: self.id, entity_type: PhantomData }
    }
}

} // verus!
