use crate::entity::{Effect, EntityId, Handle, Slot, WeakHandle, WindowId};
use crate::handlers::{handler_at, handlers_len, handlers_of, new_handlers, push_handler, Handlers};
use crate::window::{Window, WindowSlot};
use std::collections::VecDeque;
use std::marker::PhantomData;
use vstd::pervasive::VecAdditionalExecFns;
use vstd::prelude::*;

verus! {

/// What an observing entity asks for after reacting to a notification.
pub struct Reaction<V> {
    /// The observer's value after the reaction.
    pub value: V,
    /// Whether the observer itself is notified in turn.
    pub notify: bool,
    /// An entity that the observer starts observing as well.
    pub observe: Option<EntityId>,
}

/// Behaviour of an entity's value when an entity it observes is notified.
pub trait Model: Sized {
    /// The reaction of this value to a notification of `observed`.
    spec fn reaction(self, observed: EntityId) -> Reaction<Self>;

    fn on_notify(self, observed: EntityId) -> (r: Reaction<Self>)
        ensures
            r == self.reaction(observed),
    ;
}

/// Recoverable failures of the runtime.
#[derive(Clone, Copy, Debug, PartialEq, Eq, Structural)]
pub enum AppError {
    /// The window id is unknown or the window was closed.
    WindowNotFound,
    /// The entity behind a weak handle was released.
    EntityReleased,
}

/// Scope of one build or update of an entity: valid until the matching
/// `finish_entity` / `finish_update`.
pub struct ModelContext<T> {
    pub entity_id: EntityId,
    pub entity_type: PhantomData<T>,
}

impl<T> ModelContext<T> {
    /// A weak handle to the entity this context was created for.
    pub fn handle(&self) -> (r: WeakHandle<T>)
        ensures
            r.id == self.entity_id,
    {
        WeakHandle { id: self.entity_id, entity_type: PhantomData }
    }

    /// Checks out this context's own entity for a nested update, as
    /// `Handle::update` does.
    pub fn update(&self, app: &mut AppContext<T>) -> (r: (T, ModelContext<T>))
        requires
            old(app).wf(),
            is_live(old(app).slots(), self.entity_id),
            old(app).pending_updates < usize::MAX,
        ensures
            final(app).wf(),
            Slot::Occupied(r.0) == old(app).slots()[self.entity_id.index as int],
            r.1.entity_id == self.entity_id,
            final(app).slots() == old(app).slots().update(self.entity_id.index as int, Slot::CheckedOut),
            final(app).observers@ == old(app).observers@,
            final(app).queue() == old(app).queue(),
            final(app).windows@ == old(app).windows@,
            final(app).pending_updates == old(app).pending_updates + 1,
            final(app).flush_limit == old(app).flush_limit,
            final(app).unit_entity_id == old(app).unit_entity_id,
    {
        app.update_entity(&Handle::new(self.entity_id))
    }

    /// Registers this context's entity as an observer of `handle`'s entity:
    /// its `on_notify` runs on each later notification of that entity.
    pub fn observe(&self, app: &mut AppContext<T>, handle: &Handle<T>)
        requires
            old(app).wf(),
            self.entity_id.index < old(app).slots().len(),
            handle.id.index < old(app).slots().len(),
        ensures
            final(app).wf(),
            final(app).observers_of(handle.id) == old(app).observers_of(handle.id).push(self.entity_id),
            forall|k: int| 0 <= k < old(app).observers@.len() && k != handle.id.index
                ==> final(app).observers@[k] == old(app).observers@[k],
            final(app).observers@.len() == old(app).observers@.len(),
            final(app).slots() == old(app).slots(),
            final(app).queue() == old(app).queue(),
            final(app).windows@ == old(app).windows@,
            final(app).pending_updates == old(app).pending_updates,
            final(app).flush_limit == old(app).flush_limit,
            final(app).unit_entity_id == old(app).unit_entity_id,
    {
        app.push_observer(handle.id.index, self.entity_id);
    }

    /// Queues a notification of this context's entity. Its observers run
    /// only when the outermost update returns.
    pub fn notify(&self, app: &mut AppContext<T>)
        requires
            old(app).wf(),
            self.entity_id.index < old(app).slots().len(),
        ensures
            final(app).wf(),
            final(app).queue() == old(app).queue().push(Effect::Notify(self.entity_id)),
            final(app).slots() == old(app).slots(),
            final(app).observers@ == old(app).observers@,
            final(app).windows@ == old(app).windows@,
            final(app).pending_updates == old(app).pending_updates,
            final(app).flush_limit == old(app).flush_limit,
            final(app).unit_entity_id == old(app).unit_entity_id,
    {
        app.pending_effects.push_back(Effect::Notify(self.entity_id));
        assert forall|j: int| 0 <= j < app.pending_effects@.len()
            implies (#[trigger] app.pending_effects@[j])->0.index < app.entities@.len() by {
            if j < old(app).pending_effects@.len() {
                assert(app.pending_effects@[j] == old(app).pending_effects@[j]);
            }
        }
    }
}

/// The root container: owns every entity, the observer registry, the
/// effect queue and the update nesting depth.
pub struct AppContext<V> {
    pub entities: Vec<Slot<V>>,
    /// Entity reserved at startup for scopes that need an identity but no payload.
    pub unit_entity_id: EntityId,
    /// `observers[i]` lists, in registration order, the entities observing entity `i`.
    pub observers: Vec<Handlers>,
    pub windows: Vec<WindowSlot>,
    pub pending_updates: usize,
    pub pending_effects: VecDeque<Effect>,
    /// Most effects applied by one flush. A flush stops there even when the
    /// queue is not yet empty, leaving the rest for the next flush, so that
    /// observers notifying each other in a cycle cannot run forever; below it,
    /// a flush drains the queue to a fixed point.
    pub flush_limit: usize,
}

/// The slot of `id` is in the store and holds a value.
pub open spec fn is_live<V>(slots: Seq<Slot<V>>, id: EntityId) -> bool {
    id.index < slots.len() && slots[id.index as int] is Occupied
}

/// Two stores have the same slots in the same states (values may differ).
pub open spec fn same_kinds<V>(a: Seq<Slot<V>>, b: Seq<Slot<V>>) -> bool {
    &&& a.len() == b.len()
    &&& forall|i: int|
        0 <= i < a.len() ==> {
            &&& (a[i] is Occupied) == (b[i] is Occupied)
            &&& (a[i] is CheckedOut) == (b[i] is CheckedOut)
            &&& (a[i] is Released) == (b[i] is Released)
        }
}

/// A handler of `observer` for `observed` stays registered unless either
/// entity was released.
pub open spec fn handler_kept<V>(slots: Seq<Slot<V>>, observer: EntityId, observed: EntityId) -> bool {
    !(slots[observer.index as int] is Released) && !(slots[observed.index as int] is Released)
}

/// A handler of `observer` for `observed` runs when both entities are present
/// and the observer's value is not lent out.
pub open spec fn handler_runs<V>(slots: Seq<Slot<V>>, observer: EntityId, observed: EntityId) -> bool {
    slots[observer.index as int] is Occupied && !(slots[observed.index as int] is Released)
}

/// The handlers of `list` that stay registered after a notification of `observed`.
pub open spec fn kept<V>(list: Seq<EntityId>, slots: Seq<Slot<V>>, observed: EntityId) -> Seq<EntityId>
    decreases list.len(),
{
    if list.len() == 0 {
        list
    } else {
        let rest = kept(list.drop_last(), slots, observed);
        if handler_kept(slots, list.last(), observed) {
            rest.push(list.last())
        } else {
            rest
        }
    }
}

/// The handlers of `list` that run on a notification of `observed`.
pub open spec fn ran<V>(list: Seq<EntityId>, slots: Seq<Slot<V>>, observed: EntityId) -> Seq<EntityId>
    decreases list.len(),
{
    if list.len() == 0 {
        list
    } else {
        let rest = ran(list.drop_last(), slots, observed);
        if handler_runs(slots, list.last(), observed) {
            rest.push(list.last())
        } else {
            rest
        }
    }
}

/// Every handler list names only entities below `n`.
pub open spec fn lists_in_store(lists: Seq<Handlers>, n: int) -> bool {
    forall|i: int, j: int|
        0 <= i < lists.len() && 0 <= j < handlers_of(lists[i]).len()
            ==> (#[trigger] handlers_of(lists[i])[j]).index < n
}

/// Replacing one handler list, or appending an empty one for a new entity,
/// by a list of entities in the store keeps every list in the store.
proof fn lemma_lists_in_store(lists: Seq<Handlers>, n: int, at: int, list: Handlers)
    requires
        lists_in_store(lists, n),
        0 <= at <= lists.len(),
        forall|j: int| 0 <= j < handlers_of(list).len() ==> (#[trigger] handlers_of(list)[j]).index < n,
    ensures
        at < lists.len() ==> lists_in_store(lists.update(at, list), n),
        at == lists.len() ==> lists_in_store(lists.push(list), n + 1),
{
    if at < lists.len() {
        assert forall|i: int, j: int|
            0 <= i < lists.len() && 0 <= j < handlers_of(lists.update(at, list)[i]).len()
                implies (#[trigger] handlers_of(lists.update(at, list)[i])[j]).index < n by {
            if i != at {
                assert(lists.update(at, list)[i] == lists[i]);
            }
        }
    } else {
        assert forall|i: int, j: int|
            0 <= i < lists.len() + 1 && 0 <= j < handlers_of(lists.push(list)[i]).len()
                implies (#[trigger] handlers_of(lists.push(list)[i])[j]).index < n + 1 by {
            if i < lists.len() {
                assert(lists.push(list)[i] == lists[i]);
            }
        }
    }
}

/// No entity value is lent out.
pub open spec fn none_checked_out<V>(slots: Seq<Slot<V>>) -> bool {
    forall|i: int| 0 <= i < slots.len() ==> !((#[trigger] slots[i]) is CheckedOut)
}

/// The store, observer lists and queue of a notification pass.
pub type PassState<V> = (Seq<Slot<V>>, Seq<Seq<EntityId>>, Seq<Effect>);

/// One handler of a pass for `updated`: when it runs, the observer's value
/// becomes its reaction's value, its own notification is queued if the
/// reaction asks for one, and it is registered on the entity the reaction
/// names, if that entity is in the store.
pub open spec fn run_handler<V: Model>(st: PassState<V>, observer: EntityId, updated: EntityId) -> PassState<V> {
    let (slots, lists, queue) = st;
    if handler_runs(slots, observer, updated) {
        let r = slots[observer.index as int]->0.reaction(updated);
        let lists2 = match r.observe {
            Some(t) => if t.index < slots.len() {
                lists.update(t.index as int, lists[t.index as int].push(observer))
            } else {
                lists
            },
            None => lists,
        };
        let queue2 = if r.notify {
            queue.push(Effect::Notify(observer))
        } else {
            queue
        };
        (slots.update(observer.index as int, Slot::Occupied(r.value)), lists2, queue2)
    } else {
        st
    }
}

/// The handlers of `handlers`, run in order.
pub open spec fn run_handlers<V: Model>(st: PassState<V>, handlers: Seq<EntityId>, updated: EntityId) -> PassState<V>
    decreases handlers.len(),
{
    if handlers.len() == 0 {
        st
    } else {
        run_handler(run_handlers(st, handlers.drop_last(), updated), handlers.last(), updated)
    }
}

/// `post` is `pre` after the handlers registered for `updated` ran, where
/// `pre_queue` is the effect queue when they started: the surviving handlers
/// stay first in `updated`'s list, followed only by observers whose handler
/// ran; other lists and the queue only grow; with no handlers nothing changes.
pub open spec fn notify_applied<V: Model>(pre: AppContext<V>, pre_queue: Seq<Effect>, updated: EntityId, post: AppContext<V>) -> bool {
    let k = kept(pre.observers_of(updated), pre.slots(), updated);
    let r = ran(pre.observers_of(updated), pre.slots(), updated);
    let st = run_handlers(
        (pre.slots(), pre.observer_lists().update(updated.index as int, Seq::empty()), pre_queue),
        pre.observers_of(updated),
        updated,
    );
    &&& post.slots() == st.0
    &&& post.queue() == st.2
    &&& post.observers_of(updated) == k + st.1[updated.index as int]
    &&& forall|i: int| 0 <= i < post.slots().len() && i != updated.index
        ==> #[trigger] handlers_of(post.observers@[i]) == st.1[i]
    &&& post.unit_entity_id == pre.unit_entity_id
    &&& post.wf()
    &&& same_kinds(pre.slots(), post.slots())
    &&& k.len() <= post.observers_of(updated).len()
    &&& post.observers_of(updated).subrange(0, k.len() as int) == k
    &&& forall|j: int| k.len() <= j < post.observers_of(updated).len()
        ==> r.contains(#[trigger] post.observers_of(updated)[j])
    &&& forall|i: int| 0 <= i < post.slots().len() && i != updated.index
        ==> handlers_of(pre.observers@[i]).is_prefix_of(#[trigger] handlers_of(post.observers@[i]))
    &&& pre_queue.is_prefix_of(post.queue())
    &&& pre.observers_of(updated).len() == 0 ==> {
        &&& post.slots() == pre.slots()
        &&& post.queue() == pre_queue
        &&& forall|i: int| 0 <= i < post.observers@.len()
            ==> #[trigger] handlers_of(post.observers@[i]) == handlers_of(pre.observers@[i])
    }
    &&& post.windows@ == pre.windows@
    &&& post.pending_updates == pre.pending_updates
    &&& post.flush_limit == pre.flush_limit
}

/// One step of a flush: the front effect is taken off the queue and applied.
pub open spec fn flush_step<V: Model>(pre: AppContext<V>, post: AppContext<V>) -> bool {
    &&& pre.queue().len() > 0
    &&& notify_applied(pre, pre.queue().drop_first(), pre.queue()[0]->0, post)
}

/// `post` is reached from `pre` by `applied` flush steps.
pub open spec fn flushed<V: Model>(pre: AppContext<V>, post: AppContext<V>, applied: nat) -> bool {
    exists|t: Seq<AppContext<V>>|
        #![trigger t.len(), t[0]]
        {
            &&& t.len() == applied + 1
            &&& t[0] == pre
            &&& t.last() == post
            &&& forall|k: int| 0 <= k < applied ==> flush_step(#[trigger] t[k], t[k + 1])
        }
}

/// `post` is the flush of a context at depth zero whose store, observer
/// lists, queue and windows are the given ones.
pub open spec fn flushed_from<V: Model>(
    slots: Seq<Slot<V>>,
    observers: Seq<Handlers>,
    queue: Seq<Effect>,
    windows: Seq<WindowSlot>,
    flush_limit: usize,
    post: AppContext<V>,
    applied: nat,
) -> bool {
    exists|mid: AppContext<V>|
        #![trigger flushed(mid, post, applied)]
        {
            &&& mid.entities@ == slots
            &&& mid.observers@ == observers
            &&& mid.pending_effects@ == queue
            &&& mid.windows@ == windows
            &&& mid.pending_updates == 0
            &&& mid.flush_limit == flush_limit
            &&& flushed(mid, post, applied)
        }
}

/// `post` is `pre` after an update ended with the store `restored` and the
/// windows `windows`: below the outermost update nothing else changes; the
/// outermost one flushes the queue from that state.
pub open spec fn update_finished<V: Model>(
    pre: AppContext<V>,
    restored: Seq<Slot<V>>,
    windows: Seq<WindowSlot>,
    post: AppContext<V>,
    applied: nat,
) -> bool {
    &&& post.wf()
    &&& same_kinds(restored, post.slots())
    &&& post.pending_updates == pre.pending_updates - 1
    &&& post.pending_updates > 0 ==> {
        &&& post.slots() == restored
        &&& post.observers@ == pre.observers@
        &&& post.queue() == pre.queue()
        &&& applied == 0
    }
    &&& post.pending_updates == 0 ==> flushed_from(restored, pre.observers@, pre.queue(), windows,
        pre.flush_limit, post, applied)
    &&& post.pending_updates == 0 ==> applied <= post.flush_limit
        && (applied < post.flush_limit ==> post.queue().len() == 0)
    &&& pre.queue().len() == 0 ==> post.slots() == restored && post.observers@ == pre.observers@
    &&& post.windows@ == windows
    &&& post.flush_limit == pre.flush_limit
    &&& post.unit_entity_id == pre.unit_entity_id
}

/// `post` is `pre` after the end of one nested update: the depth drops by one
/// and, unless the outermost update ended, no effect has run.
pub open spec fn leaves_nested_update<V>(pre: AppContext<V>, post: AppContext<V>) -> bool {
    &&& post.pending_updates == pre.pending_updates - 1
    &&& post.pending_updates > 0 ==> post.queue() == pre.queue() && post.observers@ == pre.observers@
}

impl<V> AppContext<V> {
    pub open spec fn slots(&self) -> Seq<Slot<V>> {
        self.entities@
    }

    /// Every entity's observer list.
    pub open spec fn observer_lists(&self) -> Seq<Seq<EntityId>> {
        Seq::new(self.observers@.len(), |i: int| handlers_of(self.observers@[i]))
    }

    pub open spec fn observers_of(&self, id: EntityId) -> Seq<EntityId> {
        handlers_of(self.observers@[id.index as int])
    }

    pub open spec fn queue(&self) -> Seq<Effect> {
        self.pending_effects@
    }

    pub open spec fn wf(&self) -> bool {
        &&& self.flush_limit > 0
        &&& self.observers@.len() == self.entities@.len()
        &&& lists_in_store(self.observers@, self.entities@.len() as int)
        &&& forall|j: int|
            0 <= j < self.pending_effects@.len()
                ==> (#[trigger] self.pending_effects@[j])->0.index < self.entities@.len()
        &&& forall|i: int|
            0 <= i < self.windows@.len() && (#[trigger] self.windows@[i]) is Open
                ==> self.windows@[i]->0.id.index == i
    }

    /// Registers `observer` as the last handler for `observed`.
    fn push_observer(&mut self, observed: usize, observer: EntityId)
        requires
            old(self).wf(),
            observed < old(self).entities@.len(),
            observer.index < old(self).entities@.len(),
        ensures
            final(self).wf(),
            final(self).entities@ == old(self).entities@,
            final(self).pending_effects@ == old(self).pending_effects@,
            final(self).windows@ == old(self).windows@,
            final(self).pending_updates == old(self).pending_updates,
            final(self).flush_limit == old(self).flush_limit,
            final(self).unit_entity_id == old(self).unit_entity_id,
            final(self).observers@.len() == old(self).observers@.len(),
            handlers_of(final(self).observers@[observed as int]) == handlers_of(old(self).observers@[observed as int]).push(observer),
            forall|k: int| 0 <= k < old(self).observers@.len() && k != observed
                ==> final(self).observers@[k] == old(self).observers@[k],
    {
        let mut list: Handlers = new_handlers();
        self.observers.set_and_swap(observed, &mut list);
        push_handler(&mut list, observer);
        self.observers.set(observed, list);
        proof {
            let pushed = self.observers@[observed as int];
            assert forall|j: int| 0 <= j < handlers_of(pushed).len()
                implies (#[trigger] handlers_of(pushed)[j]).index < self.entities@.len() by {
                if j < handlers_of(old(self).observers@[observed as int]).len() {
                    assert(handlers_of(pushed)[j] == handlers_of(old(self).observers@[observed as int])[j]);
                }
            }
            lemma_lists_in_store(old(self).observers@, self.entities@.len() as int, observed as int, pushed);
            assert(self.observers@ == old(self).observers@.update(observed as int, pushed));
        }
    }

    /// Runs the handlers registered for `updated`, in registration order, and
    /// returns the observers whose handler ran. A handler whose observer or
    /// observed entity was released is dropped instead of run. Handlers that
    /// the pass registers for `updated` are kept after the surviving ones and
    /// do not run in this pass. No entity value may be lent out while
    /// handlers run.
    pub fn apply_notify_effect(&mut self, updated: EntityId) -> (ran_for: Vec<EntityId>)
        where V: Model
        requires
            old(self).wf(),
            updated.index < old(self).entities@.len(),
            none_checked_out(old(self).slots()),
        ensures
            ran_for@ == ran(old(self).observers_of(updated), old(self).slots(), updated),
            notify_applied(*old(self), old(self).queue(), updated, *final(self)),
    {
        let ghost slots0 = self.entities@;
        let ghost start = *self;
        let mut handlers: Handlers = new_handlers();
        self.observers.set_and_swap(updated.index, &mut handlers);
        let ghost init: PassState<V> = (slots0, start.observer_lists().update(updated.index as int, Seq::empty()), start.pending_effects@);
        assert(self.observer_lists() =~= init.1);
        assert(self.wf()) by {
            lemma_lists_in_store(start.observers@, slots0.len() as int, updated.index as int, self.observers@[updated.index as int]);
        }
        let mut survivors: Handlers = new_handlers();
        let mut ran_for: Vec<EntityId> = Vec::new();
        let n = handlers_len(&handlers);
        let mut i: usize = 0;
        while i < n
            invariant
                self.wf(),
                n == handlers_of(handlers).len(),
                i <= n,
                handlers_of(handlers) == handlers_of(start.observers@[updated.index as int]),
                forall|j: int| 0 <= j < n ==> (#[trigger] handlers_of(handlers)[j]).index < slots0.len(),
                updated.index < slots0.len(),
                same_kinds(slots0, self.entities@),
                none_checked_out(slots0),
                i == 0 ==> {
                    &&& self.entities@ == slots0
                    &&& self.pending_effects@ == start.pending_effects@
                    &&& forall|k: int| 0 <= k < self.observers@.len() && k != updated.index
                        ==> self.observers@[k] == start.observers@[k]
                    &&& handlers_of(self.observers@[updated.index as int]).len() == 0
                },
                forall|j: int| 0 <= j < handlers_of(self.observers@[updated.index as int]).len()
                    ==> ran_for@.contains(#[trigger] handlers_of(self.observers@[updated.index as int])[j]),
                handlers_of(survivors) == kept(handlers_of(handlers).subrange(0, i as int), slots0, updated),
                forall|j: int| 0 <= j < handlers_of(survivors).len() ==> (#[trigger] handlers_of(survivors)[j]).index < slots0.len(),
                ran_for@ == ran(handlers_of(handlers).subrange(0, i as int), slots0, updated),
                forall|k: int| 0 <= k < self.observers@.len() && k != updated.index
                    ==> handlers_of(start.observers@[k]).is_prefix_of(#[trigger] handlers_of(self.observers@[k])),
                start.pending_effects@.is_prefix_of(self.pending_effects@),
                self.windows@ == start.windows@,
                self.pending_updates == start.pending_updates,
                self.flush_limit == start.flush_limit,
                self.unit_entity_id == start.unit_entity_id,
                (self.entities@, self.observer_lists(), self.pending_effects@)
                    == run_handlers(init, handlers_of(handlers).subrange(0, i as int), updated),
            decreases n - i,
        {
            let observer = handler_at(&handlers, i);
            let ghost st_before: PassState<V> = (self.entities@, self.observer_lists(), self.pending_effects@);
            let ghost ran_before = ran_for@;
            let ghost list_before = handlers_of(self.observers@[updated.index as int]);
            assert(forall|j: int| 0 <= j < list_before.len() ==> ran_before.contains(#[trigger] list_before[j]));
            assert(handlers_of(handlers).subrange(0, i + 1).drop_last() == handlers_of(handlers).subrange(0, i as int));
            assert(!(slots0[observer.index as int] is CheckedOut));
            let released_observer = match &self.entities[observer.index] { Slot::Released => true, _ => false };
            let released_updated = match &self.entities[updated.index] { Slot::Released => true, _ => false };
            if !released_observer && !released_updated {
                push_handler(&mut survivors, observer);
                let mut slot = Slot::CheckedOut;
                self.entities.set_and_swap(observer.index, &mut slot);
                match slot {
                    Slot::Occupied(value) => {
                        let reaction = value.on_notify(updated);
                        let ghost lists_prev = self.observer_lists();
                        self.entities.set(observer.index, Slot::Occupied(reaction.value));
                        ran_for.push(observer);
                        if reaction.notify {
                            self.pending_effects.push_back(Effect::Notify(observer));
                        }
                        match reaction.observe {
                            Some(target) => {
                                if target.index < self.entities.len() {
                                    self.push_observer(target.index, observer);
                                    assert(self.observer_lists() =~= lists_prev.update(target.index as int,
                                        lists_prev[target.index as int].push(observer)));
                                } else {
                                    assert(self.observer_lists() =~= lists_prev);
                                }
                            },
                            None => {
                                assert(self.observer_lists() =~= lists_prev);
                            },
                        }
                    },
                    _ => vstd::pervasive::unreached(),
                }
            }
            assert(same_kinds(slots0, self.entities@));
            assert((self.entities@, self.observer_lists(), self.pending_effects@) == run_handler(st_before, observer, updated));
            assert forall|j: int| 0 <= j < handlers_of(self.observers@[updated.index as int]).len()
                implies ran_for@.contains(#[trigger] handlers_of(self.observers@[updated.index as int])[j]) by {
                let x = handlers_of(self.observers@[updated.index as int])[j];
                if j < list_before.len() {
                    assert(x == list_before[j]);
                    assert(ran_before.contains(x));
                    let idx = choose|idx: int| 0 <= idx < ran_before.len() && ran_before[idx] == x;
                    assert(ran_for@[idx] == x);
                } else {
                    assert(x == observer);
                    assert(ran_for@[ran_for@.len() - 1] == observer);
                }
            }
            i = i + 1;
        }
        assert(handlers_of(handlers).subrange(0, n as int) == handlers_of(handlers));
        let ghost last_list = handlers_of(self.observers@[updated.index as int]);
        let ghost end_state = run_handlers(init, handlers_of(handlers), updated);
        assert(self.observer_lists()[updated.index as int] == last_list);
        let ghost lists_end = self.observer_lists();
        assert(forall|j: int| 0 <= j < last_list.len() ==> ran_for@.contains(#[trigger] last_list[j]));
        let mut fresh: Handlers = new_handlers();
        self.observers.set_and_swap(updated.index, &mut fresh);
        assert(handlers_of(fresh) == last_list);
        let ghost kept_part = handlers_of(survivors);
        let m = handlers_len(&fresh);
        let mut j: usize = 0;
        while j < m
            invariant
                m == handlers_of(fresh).len(),
                j <= m,
                handlers_of(survivors) == kept_part + handlers_of(fresh).subrange(0, j as int),
                forall|x: int| 0 <= x < handlers_of(fresh).len() ==> (#[trigger] handlers_of(fresh)[x]).index < slots0.len(),
                forall|x: int| 0 <= x < handlers_of(survivors).len() ==> (#[trigger] handlers_of(survivors)[x]).index < slots0.len(),
                forall|x: int| 0 <= x < handlers_of(fresh).len() ==> ran_for@.contains(#[trigger] handlers_of(fresh)[x]),
            decreases m - j,
        {
            let next = handler_at(&fresh, j);
            push_handler(&mut survivors, next);
            assert(handlers_of(fresh).subrange(0, j + 1) == handlers_of(fresh).subrange(0, j as int).push(next));
            j = j + 1;
        }
        let ghost merged = handlers_of(survivors);
        let ghost lists_before_merge = self.observers@;
        assert(merged.subrange(0, kept_part.len() as int) == kept_part);
        assert(handlers_of(fresh).subrange(0, m as int) == handlers_of(fresh));
        assert forall|x: int| kept_part.len() <= x < merged.len() implies ran_for@.contains(#[trigger] merged[x]) by {
            assert(merged[x] == handlers_of(fresh)[x - kept_part.len()]);
        }
        self.observers.set(updated.index, survivors);
        proof {
            lemma_lists_in_store(lists_before_merge, slots0.len() as int, updated.index as int, self.observers@[updated.index as int]);
            assert(self.observers@ == lists_before_merge.update(updated.index as int, self.observers@[updated.index as int]));
        }
        assert(handlers_of(self.observers@[updated.index as int]) == merged);
        assert(merged == kept_part + last_list) by {
            assert(handlers_of(fresh).subrange(0, m as int) == handlers_of(fresh));
        }
        assert forall|i: int| 0 <= i < self.entities@.len() && i != updated.index
            implies #[trigger] handlers_of(self.observers@[i]) == end_state.1[i] by {
            assert(lists_end[i] == handlers_of(self.observers@[i]));
        }
        ran_for
    }

    /// Applies queued effects in FIFO order until the queue is empty or
    /// `flush_limit` effects have been applied; effects raised while applying
    /// are drained by the same call. Returns how many effects were applied.
    pub fn flush_effects(&mut self) -> (applied: usize)
        where V: Model
        requires
            old(self).wf(),
            none_checked_out(old(self).slots()),
        ensures
            final(self).wf(),
            flushed(*old(self), *final(self), applied as nat),
            same_kinds(old(self).slots(), final(self).slots()),
            applied <= final(self).flush_limit,
            applied < final(self).flush_limit ==> final(self).queue().len() == 0,
            old(self).queue().len() == 0 ==> *final(self) == *old(self),
            final(self).windows@ == old(self).windows@,
            final(self).pending_updates == old(self).pending_updates,
            final(self).flush_limit == old(self).flush_limit,
            final(self).unit_entity_id == old(self).unit_entity_id,
    {
        let ghost start = *self;
        let ghost mut trace: Seq<AppContext<V>> = seq![*self];
        let mut applied: usize = 0;
        while applied < self.flush_limit && self.pending_effects.len() > 0
            invariant
                self.wf(),
                applied <= self.flush_limit,
                same_kinds(start.entities@, self.entities@),
                none_checked_out(start.entities@),
                start.pending_effects@.len() == 0 ==> *self == start,
                self.windows@ == start.windows@,
                self.pending_updates == start.pending_updates,
                self.flush_limit == start.flush_limit,
                self.unit_entity_id == start.unit_entity_id,
                trace.len() == applied + 1,
                trace[0] == start,
                trace.last() == *self,
                forall|k: int| 0 <= k < applied ==> flush_step(#[trigger] trace[k], trace[k + 1]),
            decreases self.flush_limit - applied,
        {
            let ghost before = *self;
            assert(none_checked_out(self.entities@)) by {
                assert forall|i: int| 0 <= i < self.entities@.len() implies !((#[trigger] self.entities@[i]) is CheckedOut) by {
                    assert(!(start.entities@[i] is CheckedOut));
                }
            }
            match self.pending_effects.pop_front() {
                Some(Effect::Notify(id)) => {
                    assert(before.pending_effects@[0] == Effect::Notify(id));
                    assert(self.pending_effects@ == before.queue().drop_first());
                    assert(self.wf()) by {
                        assert forall|j: int| 0 <= j < self.pending_effects@.len()
                            implies (#[trigger] self.pending_effects@[j])->0.index < self.entities@.len() by {
                            assert(self.pending_effects@[j] == before.pending_effects@[j + 1]);
                        }
                    }
                    let _ = self.apply_notify_effect(id);
                    assert(flush_step(before, *self));
                },
                None => vstd::pervasive::unreached(),
            }
            proof {
                trace = trace.push(*self);
            }
            assert forall|k: int| 0 <= k < applied + 1 implies flush_step(#[trigger] trace[k], trace[k + 1]) by {
                if k < applied {
                    assert(trace[k] == trace.drop_last()[k]);
                    assert(trace[k + 1] == trace.drop_last()[k + 1]);
                }
            }
            applied = applied + 1;
        }
        assert(flushed(start, *self, applied as nat)) by {
            assert(trace.len() == applied + 1 && trace[0] == start);
        }
        applied
    }

    /// Leaves one level of update nesting; when the outermost update ends,
    /// flushes the effect queue. Returns how many effects were applied.
    fn end_update(&mut self) -> (applied: usize)
        where V: Model
        requires
            old(self).wf(),
            old(self).pending_updates > 0,
            old(self).pending_updates == 1 ==> none_checked_out(old(self).slots()),
        ensures
            final(self).wf(),
            same_kinds(old(self).slots(), final(self).slots()),
            leaves_nested_update(*old(self), *final(self)),
            final(self).pending_updates > 0 ==> final(self).slots() == old(self).slots() && applied == 0,
            final(self).pending_updates == 0 ==> flushed_from(old(self).slots(), old(self).observers@,
                old(self).queue(), old(self).windows@, old(self).flush_limit, *final(self), applied as nat),
            final(self).pending_updates == 0 ==> applied <= final(self).flush_limit
                && (applied < final(self).flush_limit ==> final(self).queue().len() == 0),
            old(self).queue().len() == 0 ==> final(self).slots() == old(self).slots()
                && final(self).observers@ == old(self).observers@,
            final(self).windows@ == old(self).windows@,
            final(self).flush_limit == old(self).flush_limit,
            final(self).unit_entity_id == old(self).unit_entity_id,
    {
        self.pending_updates = self.pending_updates - 1;
        if self.pending_updates == 0 {
            let ghost mid = *self;
            let applied = self.flush_effects();
            assert(flushed(mid, *self, applied as nat));
            applied
        } else {
            0
        }
    }

    /// Starts building a new entity: allocates its slot, empty until
    /// `finish_entity`, and enters one level of update nesting.
    pub fn entity(&mut self) -> (cx: ModelContext<V>)
        requires
            old(self).wf(),
            old(self).entities@.len() < usize::MAX,
            old(self).pending_updates < usize::MAX,
        ensures
            final(self).wf(),
            cx.entity_id.index == old(self).slots().len(),
            final(self).slots() == old(self).slots().push(Slot::CheckedOut),
            final(self).observers_of(cx.entity_id).len() == 0,
            forall|i: int| 0 <= i < old(self).observers@.len() ==> final(self).observers@[i] == old(self).observers@[i],
            final(self).queue() == old(self).queue(),
            final(self).windows@ == old(self).windows@,
            final(self).pending_updates == old(self).pending_updates + 1,
            final(self).flush_limit == old(self).flush_limit,
            final(self).unit_entity_id == old(self).unit_entity_id,
    {
        let id = EntityId { index: self.entities.len() };
        self.entities.push(Slot::CheckedOut);
        self.observers.push(new_handlers());
        self.pending_updates = self.pending_updates + 1;
        proof {
            lemma_lists_in_store(old(self).observers@, old(self).entities@.len() as int,
                old(self).observers@.len() as int, self.observers@.last());
            assert(self.observers@ == old(self).observers@.push(self.observers@.last()));
        }
        ModelContext { entity_id: id, entity_type: PhantomData }
    }

    /// Checks out the value of a present entity for an update and enters one
    /// level of update nesting. Updating an entity that is absent or already
    /// checked out is a programming error.
    pub fn update_entity(&mut self, handle: &Handle<V>) -> (r: (V, ModelContext<V>))
        requires
            old(self).wf(),
            is_live(old(self).slots(), handle.id),
            old(self).pending_updates < usize::MAX,
        ensures
            final(self).wf(),
            Slot::Occupied(r.0) == old(self).slots()[handle.id.index as int],
            r.1.entity_id == handle.id,
            final(self).slots() == old(self).slots().update(handle.id.index as int, Slot::CheckedOut),
            final(self).observers@ == old(self).observers@,
            final(self).queue() == old(self).queue(),
            final(self).windows@ == old(self).windows@,
            final(self).pending_updates == old(self).pending_updates + 1,
            final(self).flush_limit == old(self).flush_limit,
            final(self).unit_entity_id == old(self).unit_entity_id,
    {
        let mut slot = Slot::CheckedOut;
        self.entities.set_and_swap(handle.id.index, &mut slot);
        self.pending_updates = self.pending_updates + 1;
        match slot {
            Slot::Occupied(value) => (value, ModelContext { entity_id: handle.id, entity_type: PhantomData }),
            _ => vstd::pervasive::unreached(),
        }
    }

    /// Restores the value of the entity that `cx` was built or updated for,
    /// and leaves one level of update nesting; the outermost one flushes
    /// the effect queue. Returns how many effects the flush applied.
    pub fn finish_update(&mut self, cx: ModelContext<V>, value: V) -> (applied: usize)
        where V: Model
        requires
            old(self).wf(),
            cx.entity_id.index < old(self).slots().len(),
            old(self).slots()[cx.entity_id.index as int] is CheckedOut,
            old(self).pending_updates > 0,
            old(self).pending_updates == 1 ==> forall|i: int| 0 <= i < old(self).slots().len() && i != cx.entity_id.index
                ==> !((#[trigger] old(self).slots()[i]) is CheckedOut),
        ensures
            is_live(final(self).slots(), cx.entity_id),
            update_finished(*old(self), old(self).slots().update(cx.entity_id.index as int, Slot::Occupied(value)),
                old(self).windows@, *final(self), applied as nat),
            leaves_nested_update(*old(self), *final(self)),
    {
        self.entities.set(cx.entity_id.index, Slot::Occupied(value));
        assert(self.pending_updates == 1 ==> none_checked_out(self.entities@));
        self.end_update()
    }

    /// Stores the value built for the entity of `cx`, as `finish_update`
    /// does, and returns a handle to the new entity.
    pub fn finish_entity(&mut self, cx: ModelContext<V>, value: V) -> (r: (Handle<V>, usize))
        where V: Model
        requires
            old(self).wf(),
            cx.entity_id.index < old(self).slots().len(),
            old(self).slots()[cx.entity_id.index as int] is CheckedOut,
            old(self).pending_updates > 0,
            old(self).pending_updates == 1 ==> forall|i: int| 0 <= i < old(self).slots().len() && i != cx.entity_id.index
                ==> !((#[trigger] old(self).slots()[i]) is CheckedOut),
        ensures
            r.0.id == cx.entity_id,
            is_live(final(self).slots(), cx.entity_id),
            update_finished(*old(self), old(self).slots().update(cx.entity_id.index as int, Slot::Occupied(value)),
                old(self).windows@, *final(self), r.1 as nat),
            leaves_nested_update(*old(self), *final(self)),
    {
        let id = cx.entity_id;
        let applied = self.finish_update(cx, value);
        (Handle::new(id), applied)
    }

    /// Releases a present entity: weak handles to it stop upgrading and its
    /// handlers are dropped at the next notification.
    pub fn release_entity(&mut self, handle: &Handle<V>)
        requires
            old(self).wf(),
            is_live(old(self).slots(), handle.id),
        ensures
            final(self).wf(),
            final(self).slots() == old(self).slots().update(handle.id.index as int, Slot::Released),
            final(self).observers@ == old(self).observers@,
            final(self).queue() == old(self).queue(),
            final(self).windows@ == old(self).windows@,
            final(self).pending_updates == old(self).pending_updates,
            final(self).flush_limit == old(self).flush_limit,
            final(self).unit_entity_id == old(self).unit_entity_id,
    {
        self.entities.set(handle.id.index, Slot::Released);
    }

    /// Whether the entity is in the store and not released.
    pub fn is_alive(&self, id: EntityId) -> (r: bool)
        ensures
            r == (id.index < self.slots().len() && !(self.slots()[id.index as int] is Released)),
    {
        if id.index < self.entities.len() {
            match &self.entities[id.index] {
                Slot::Released => false,
                _ => true,
            }
        } else {
            false
        }
    }

    /// The current value of an entity, when it is present and not checked out.
    pub fn read(&self, id: EntityId) -> (r: Option<&V>)
        ensures
            is_live(self.slots(), id) ==> r == Some(&self.slots()[id.index as int]->0),
            !is_live(self.slots(), id) ==> r is None,
    {
        if id.index < self.entities.len() {
            match &self.entities[id.index] {
                Slot::Occupied(v) => Some(v),
                _ => None,
            }
        } else {
            None
        }
    }

    /// Allocates the slot of a new window, in use until `finish_open_window`.
    pub fn open_window(&mut self) -> (id: WindowId)
        requires
            old(self).wf(),
        ensures
            final(self).wf(),
            id.index == old(self).windows@.len(),
            final(self).windows@ == old(self).windows@.push(WindowSlot::InUse),
            final(self).entities@ == old(self).entities@,
            final(self).observers@ == old(self).observers@,
            final(self).pending_effects@ == old(self).pending_effects@,
            final(self).pending_updates == old(self).pending_updates,
            final(self).flush_limit == old(self).flush_limit,
            final(self).unit_entity_id == old(self).unit_entity_id,
    {
        let id = WindowId { index: self.windows.len() };
        self.windows.push(WindowSlot::InUse);
        id
    }

    /// Stores the window built for a slot allocated by `open_window`.
    pub fn finish_open_window(&mut self, id: WindowId)
        requires
            old(self).wf(),
            id.index < old(self).windows@.len(),
            old(self).windows@[id.index as int] is InUse,
        ensures
            final(self).wf(),
            final(self).windows@ == old(self).windows@.update(id.index as int, WindowSlot::Open(Window { id, dirty: false })),
            final(self).entities@ == old(self).entities@,
            final(self).observers@ == old(self).observers@,
            final(self).pending_effects@ == old(self).pending_effects@,
            final(self).pending_updates == old(self).pending_updates,
            final(self).flush_limit == old(self).flush_limit,
            final(self).unit_entity_id == old(self).unit_entity_id,
    {
        self.windows.set(id.index, WindowSlot::Open(Window { id, dirty: false }));
    }

    /// Marks an open window closed; returns whether it was open.
    pub fn close_window(&mut self, id: WindowId) -> (r: bool)
        requires
            old(self).wf(),
        ensures
            final(self).wf(),
            r == (id.index < old(self).windows@.len() && old(self).windows@[id.index as int] is Open),
            r ==> final(self).windows@ == old(self).windows@.update(id.index as int, WindowSlot::Closed),
            !r ==> final(self).windows@ == old(self).windows@,
            final(self).entities@ == old(self).entities@,
            final(self).observers@ == old(self).observers@,
            final(self).pending_effects@ == old(self).pending_effects@,
            final(self).pending_updates == old(self).pending_updates,
            final(self).flush_limit == old(self).flush_limit,
            final(self).unit_entity_id == old(self).unit_entity_id,
    {
        if id.index < self.windows.len() {
            let open = match &self.windows[id.index] {
                WindowSlot::Open(_) => true,
                _ => false,
            };
            if open {
                self.windows.set(id.index, WindowSlot::Closed);
            }
            open
        } else {
            false
        }
    }

    /// Checks out an open window for an update and enters one level of update
    /// nesting. An unknown or closed window gives `WindowNotFound` and leaves
    /// the context as it was. Updating a window already in use is a
    /// programming error.
    pub fn update_window(&mut self, id: WindowId) -> (r: Result<Window, AppError>)
        requires
            old(self).wf(),
            id.index < old(self).windows@.len() ==> !(old(self).windows@[id.index as int] is InUse),
            old(self).pending_updates < usize::MAX,
        ensures
            final(self).wf(),
            r is Ok ==> r->Ok_0.id == id,
            r is Err <==> (id.index >= old(self).windows@.len() || old(self).windows@[id.index as int] is Closed),
            r is Err ==> r->Err_0 == AppError::WindowNotFound && *final(self) == *old(self),
            r is Ok ==> {
                &&& WindowSlot::Open(r->Ok_0) == old(self).windows@[id.index as int]
                &&& final(self).windows@ == old(self).windows@.update(id.index as int, WindowSlot::InUse)
                &&& final(self).entities@ == old(self).entities@
                &&& final(self).observers@ == old(self).observers@
                &&& final(self).pending_effects@ == old(self).pending_effects@
                &&& final(self).pending_updates == old(self).pending_updates + 1
                &&& final(self).flush_limit == old(self).flush_limit
            },
    {
        if id.index >= self.windows.len() {
            return Err(AppError::WindowNotFound);
        }
        let closed = match &self.windows[id.index] {
            WindowSlot::Closed => true,
            _ => false,
        };
        if closed {
            return Err(AppError::WindowNotFound);
        }
        let mut slot = WindowSlot::InUse;
        self.windows.set_and_swap(id.index, &mut slot);
        self.pending_updates = self.pending_updates + 1;
        match slot {
            WindowSlot::Open(window) => Ok(window),
            _ => vstd::pervasive::unreached(),
        }
    }

    /// Puts back a window checked out by `update_window`, marked dirty, and
    /// leaves one level of update nesting as `finish_update` does. Returns how
    /// many effects the flush applied.
    pub fn finish_window_update(&mut self, window: Window) -> (applied: usize)
        where V: Model
        requires
            old(self).wf(),
            window.id.index < old(self).windows@.len(),
            old(self).windows@[window.id.index as int] is InUse,
            old(self).pending_updates > 0,
            old(self).pending_updates == 1 ==> none_checked_out(old(self).slots()),
        ensures
            update_finished(*old(self), old(self).slots(), old(self).windows@.update(window.id.index as int,
                WindowSlot::Open(Window { id: window.id, dirty: true })), *final(self), applied as nat),
            leaves_nested_update(*old(self), *final(self)),
    {
        let id = window.id;
        self.windows.set(id.index, WindowSlot::Open(Window { id, dirty: true }));
        self.end_update()
    }

    /// A context whose store holds one entity, the unit entity, with the
    /// value `unit`: an identity for scopes that need one but no payload.
    pub fn new(unit: V, flush_limit: usize) -> (r: Self)
        requires
            flush_limit > 0,
        ensures
            r.wf(),
            r.slots() == seq![Slot::Occupied(unit)],
            r.unit_entity_id == (EntityId { index: 0 }),
            r.observers_of(r.unit_entity_id).len() == 0,
            r.windows@.len() == 0,
            r.queue().len() == 0,
            r.pending_updates == 0,
            r.flush_limit == flush_limit,
    {
        let mut entities: Vec<Slot<V>> = Vec::new();
        entities.push(Slot::Occupied(unit));
        let mut observers: Vec<Handlers> = Vec::new();
        observers.push(new_handlers());
        AppContext {
            entities,
            observers,
            windows: Vec::new(),
            pending_updates: 0,
            pending_effects: VecDeque::new(),
            flush_limit,
            unit_entity_id: EntityId { index: 0 },
        }
    }
}

} // verus!
