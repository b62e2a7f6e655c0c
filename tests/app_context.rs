use gpui3::app::{AppContext, AppError, Model, Reaction};
use gpui3::entity::{Effect, EntityId, Handle, Slot, WindowId};
use gpui3::window::WindowSlot;

/// Counts the notifications it reacted to; may notify itself in turn and
/// register one more observation the first time it reacts.
struct Counter {
    count: u64,
    relay: bool,
    also_observe: Option<EntityId>,
}

impl Counter {
    fn new() -> Self {
        Counter { count: 0, relay: false, also_observe: None }
    }
}

impl Model for Counter {
    fn on_notify(self, observed: EntityId) -> Reaction<Self> {
        self.reaction(observed)
    }

    fn reaction(self, _observed: EntityId) -> Reaction<Self> {
        let observe = if self.count == 0 { self.also_observe } else { None };
        Reaction {
            notify: self.relay,
            observe,
            value: Counter { count: self.count + 1, relay: self.relay, also_observe: self.also_observe },
        }
    }
}

fn assert_send<T: Send>() {}

fn create(app: &mut AppContext<Counter>, value: Counter) -> Handle<Counter> {
    let cx = app.entity();
    app.finish_entity(cx, value).0
}

fn count(app: &AppContext<Counter>, handle: &Handle<Counter>) -> u64 {
    app.read(handle.id).unwrap().count
}

fn is_occupied(app: &AppContext<Counter>, id: EntityId) -> bool {
    matches!(app.entities[id.index], Slot::Occupied(_))
}

#[test]
fn test_app_context_send_sync() {
    assert_send::<AppContext<u64>>();
}

#[test]
fn nested_updates_restore_every_slot() {
    let mut app: AppContext<Counter> = AppContext::new(Counter::new(), 100);
    let a = create(&mut app, Counter::new());
    let b = create(&mut app, Counter::new());
    let (mut va, cxa) = a.update(&mut app);
    assert!(!is_occupied(&app, a.id));
    let (mut vb, cxb) = b.update(&mut app);
    assert!(!is_occupied(&app, b.id));
    vb.count = 7;
    app.finish_update(cxb, vb);
    assert!(is_occupied(&app, b.id));
    assert!(!is_occupied(&app, a.id));
    va.count = 3;
    app.finish_update(cxa, va);
    assert_eq!(count(&app, &a), 3);
    assert_eq!(count(&app, &b), 7);
    assert_eq!(app.pending_updates, 0);
}

#[test]
fn entity_built_inside_another_build() {
    let mut app: AppContext<Counter> = AppContext::new(Counter::new(), 100);
    let outer = app.entity();
    let inner = app.entity();
    let (inner_handle, _) = app.finish_entity(inner, Counter { count: 2, relay: false, also_observe: None });
    assert_eq!(app.pending_updates, 1);
    let (outer_handle, _) = app.finish_entity(outer, Counter { count: 1, relay: false, also_observe: None });
    assert_eq!(outer_handle.id, EntityId { index: 1 });
    assert_eq!(inner_handle.id, EntityId { index: 2 });
    assert_eq!(count(&app, &outer_handle), 1);
    assert_eq!(count(&app, &inner_handle), 2);
}

#[test]
fn notify_three_levels_deep_runs_observers_once_after_outermost() {
    let mut app: AppContext<Counter> = AppContext::new(Counter::new(), 100);
    let a = create(&mut app, Counter::new());
    let b = create(&mut app, Counter::new());
    let c = create(&mut app, Counter::new());
    let observer = create(&mut app, Counter::new());
    let (vo, cxo) = observer.update(&mut app);
    cxo.observe(&mut app, &a);
    app.finish_update(cxo, vo);

    let (vb, cxb) = b.update(&mut app);
    let (vc, cxc) = c.update(&mut app);
    let (va, cxa) = a.update(&mut app);
    cxa.notify(&mut app);
    assert_eq!(app.finish_update(cxa, va), 0);
    assert_eq!(app.pending_effects.len(), 1);
    assert_eq!(app.finish_update(cxc, vc), 0);
    assert_eq!(app.pending_effects.len(), 1);
    assert_eq!(count(&app, &observer), 0);
    assert_eq!(app.finish_update(cxb, vb), 1);
    assert_eq!(app.pending_effects.len(), 0);
    assert_eq!(count(&app, &observer), 1);
}

#[test]
fn flush_drains_effects_raised_by_observers() {
    let mut app: AppContext<Counter> = AppContext::new(Counter::new(), 100);
    let a = create(&mut app, Counter::new());
    let b = create(&mut app, Counter { count: 0, relay: true, also_observe: None });
    let c = create(&mut app, Counter::new());
    let (vb, cxb) = b.update(&mut app);
    cxb.observe(&mut app, &a);
    app.finish_update(cxb, vb);
    let (vc, cxc) = c.update(&mut app);
    cxc.observe(&mut app, &b);
    app.finish_update(cxc, vc);

    let (va, cxa) = a.update(&mut app);
    cxa.notify(&mut app);
    assert_eq!(app.finish_update(cxa, va), 2);
    assert_eq!(count(&app, &b), 1);
    assert_eq!(count(&app, &c), 1);
    assert_eq!(app.pending_effects.len(), 0);
}

#[test]
fn handler_registered_during_notification_waits_for_next_one() {
    let mut app: AppContext<Counter> = AppContext::new(Counter::new(), 100);
    let a = create(&mut app, Counter::new());
    let b = create(&mut app, Counter { count: 0, relay: false, also_observe: Some(a.id) });
    let (vb, cxb) = b.update(&mut app);
    cxb.observe(&mut app, &a);
    app.finish_update(cxb, vb);

    let ran = app.apply_notify_effect(a.id);
    assert_eq!(ran, vec![b.id]);
    assert_eq!(count(&app, &b), 1);
    assert_eq!(app.observers[a.id.index].to_vec(), vec![b.id, b.id]);

    let ran = app.apply_notify_effect(a.id);
    assert_eq!(ran, vec![b.id, b.id]);
    assert_eq!(count(&app, &b), 3);
}

#[test]
fn released_entity_gives_recoverable_error() {
    let mut app: AppContext<Counter> = AppContext::new(Counter::new(), 100);
    let a = create(&mut app, Counter::new());
    let weak = a.downgrade();
    assert!(weak.upgrade(&app).is_some());
    app.release_entity(&a);
    assert!(weak.upgrade(&app).is_none());
    assert!(matches!(weak.update(&mut app), Err(AppError::EntityReleased)));
    assert_eq!(app.pending_updates, 0);
}

#[test]
fn weak_update_of_live_entity_checks_it_out() {
    let mut app: AppContext<Counter> = AppContext::new(Counter::new(), 100);
    let a = create(&mut app, Counter { count: 5, relay: false, also_observe: None });
    let weak = a.downgrade();
    let (mut value, cx) = weak.update(&mut app).ok().unwrap();
    assert_eq!(value.count, 5);
    assert_eq!(cx.handle().id, a.id);
    value.count = 6;
    app.finish_update(cx, value);
    assert_eq!(count(&app, &a), 6);
}

#[test]
fn handlers_of_released_observers_are_dropped() {
    let mut app: AppContext<Counter> = AppContext::new(Counter::new(), 100);
    let a = create(&mut app, Counter::new());
    let b = create(&mut app, Counter::new());
    let (vb, cxb) = b.update(&mut app);
    cxb.observe(&mut app, &a);
    app.finish_update(cxb, vb);
    app.release_entity(&b);
    let ran = app.apply_notify_effect(a.id);
    assert!(ran.is_empty());
    assert!(app.observers[a.id.index].to_vec().is_empty());
}

#[test]
fn unknown_or_closed_window_is_recoverable() {
    let mut app: AppContext<Counter> = AppContext::new(Counter::new(), 100);
    assert_eq!(app.update_window(WindowId { index: 3 }).err(), Some(AppError::WindowNotFound));
    let id = app.open_window();
    app.finish_open_window(id);
    assert!(app.close_window(id));
    assert_eq!(app.update_window(id).err(), Some(AppError::WindowNotFound));
    assert_eq!(app.pending_updates, 0);
    let other = app.open_window();
    app.finish_open_window(other);
    let window = app.update_window(other).ok().unwrap();
    assert!(!window.dirty);
    app.finish_window_update(window);
    match &app.windows[other.index] {
        WindowSlot::Open(w) => assert!(w.dirty),
        _ => panic!("window should be open"),
    }
    assert_eq!(app.pending_updates, 0);
}

#[test]
fn flush_stops_at_its_limit_on_an_observer_cycle() {
    let mut app: AppContext<Counter> = AppContext::new(Counter::new(), 5);
    let a = create(&mut app, Counter { count: 0, relay: true, also_observe: None });
    let b = create(&mut app, Counter { count: 0, relay: true, also_observe: None });
    let (va, cxa) = a.update(&mut app);
    cxa.observe(&mut app, &b);
    let (vb, cxb) = b.update(&mut app);
    cxb.observe(&mut app, &a);
    cxb.notify(&mut app);
    app.finish_update(cxb, vb);
    assert_eq!(app.finish_update(cxa, va), 5);
    assert_eq!(app.pending_effects.len(), 1);
    assert_eq!(count(&app, &a) + count(&app, &b), 5);
}

#[test]
fn notify_queues_one_effect() {
    let mut app: AppContext<Counter> = AppContext::new(Counter::new(), 10);
    let a = create(&mut app, Counter::new());
    let (va, cxa) = a.update(&mut app);
    cxa.notify(&mut app);
    assert_eq!(app.pending_effects.front(), Some(&Effect::Notify(a.id)));
    app.finish_update(cxa, va);
    assert!(app.pending_effects.is_empty());
}

#[test]
fn cloned_handle_refers_to_same_entity() {
    let mut app: AppContext<Counter> = AppContext::new(Counter::new(), 10);
    let a = create(&mut app, Counter::new());
    let copy = a.clone();
    assert_eq!(copy.id, a.id);
    assert_eq!(copy.downgrade().id, a.id);
}

#[test]
fn three_nested_updates_restore_all_and_leave_others() {
    let mut app: AppContext<Counter> = AppContext::new(Counter::new(), 100);
    let a = create(&mut app, Counter::new());
    let b = create(&mut app, Counter::new());
    let c = create(&mut app, Counter::new());
    let untouched = create(&mut app, Counter { count: 9, relay: false, also_observe: None });
    let (mut va, cxa) = a.update(&mut app);
    let (mut vb, cxb) = b.update(&mut app);
    let (mut vc, cxc) = c.update(&mut app);
    assert_eq!(app.pending_updates, 3);
    vc.count = 30;
    vb.count = 20;
    va.count = 10;
    app.finish_update(cxc, vc);
    app.finish_update(cxb, vb);
    app.finish_update(cxa, va);
    assert_eq!(count(&app, &a), 10);
    assert_eq!(count(&app, &b), 20);
    assert_eq!(count(&app, &c), 30);
    assert_eq!(count(&app, &untouched), 9);
    assert_eq!(app.pending_updates, 0);
}

#[test]
fn context_updates_its_own_entity() {
    let mut app: AppContext<Counter> = AppContext::new(Counter::new(), 10);
    let a = create(&mut app, Counter { count: 1, relay: false, also_observe: None });
    let (own, cx_own) = gpui3::app::ModelContext::<Counter> {
        entity_id: a.id,
        entity_type: std::marker::PhantomData,
    }
    .update(&mut app);
    assert_eq!(own.count, 1);
    assert_eq!(cx_own.entity_id, a.id);
    assert!(app.read(a.id).is_none());
    app.finish_update(cx_own, Counter { count: 4, relay: false, also_observe: None });
    assert_eq!(count(&app, &a), 4);
}

#[test]
fn new_context_holds_only_the_unit_entity() {
    let app: AppContext<Counter> = AppContext::new(Counter { count: 11, relay: false, also_observe: None }, 3);
    assert_eq!(app.unit_entity_id, EntityId { index: 0 });
    assert_eq!(app.entities.len(), 1);
    assert_eq!(app.read(app.unit_entity_id).unwrap().count, 11);
    assert_eq!(app.pending_updates, 0);
    assert!(app.pending_effects.is_empty());
    assert!(app.windows.is_empty());
}

#[test]
fn built_value_is_stored_and_update_returns_it() {
    let mut app: AppContext<Counter> = AppContext::new(Counter::new(), 10);
    let a = create(&mut app, Counter { count: 41, relay: false, also_observe: None });
    let (mut v, cx) = a.update(&mut app);
    v.count += 1;
    assert_eq!(app.finish_update(cx, v), 0);
    assert_eq!(count(&app, &a), 42);
    let weak = a.downgrade();
    let (mut w, cx) = weak.update(&mut app).ok().unwrap();
    w.count = 2;
    app.finish_update(cx, w);
    assert_eq!(count(&app, &a), 2);
}

#[test]
fn notify_with_no_observers_changes_nothing() {
    let mut app: AppContext<Counter> = AppContext::new(Counter::new(), 10);
    let a = create(&mut app, Counter { count: 3, relay: false, also_observe: None });
    let ran = app.apply_notify_effect(a.id);
    assert!(ran.is_empty());
    assert_eq!(count(&app, &a), 3);
    assert!(app.observers[a.id.index].to_vec().is_empty());
    assert!(app.pending_effects.is_empty());
}

#[test]
fn failed_window_lookup_leaves_open_window_usable() {
    let mut app: AppContext<Counter> = AppContext::new(Counter::new(), 10);
    let id = app.open_window();
    app.finish_open_window(id);
    assert_eq!(app.update_window(WindowId { index: 9 }).err(), Some(AppError::WindowNotFound));
    let window = app.update_window(id).ok().unwrap();
    assert_eq!(window.id, id);
    app.finish_window_update(window);
    assert!(matches!(&app.windows[id.index], WindowSlot::Open(w) if w.dirty && w.id == id));
}
