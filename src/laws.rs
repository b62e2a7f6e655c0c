use crate::app::{is_live, leaves_nested_update, AppContext};
use crate::entity::{Effect, EntityId, Slot};
use vstd::prelude::*;

verus! {

/// The slots after checking out each entity of `ids`, outermost first.
pub open spec fn checked_out_all<V>(slots: Seq<Slot<V>>, ids: Seq<EntityId>) -> Seq<Slot<V>>
    decreases ids.len(),
{
    if ids.len() == 0 {
        slots
    } else {
        checked_out_all(slots, ids.drop_last()).update(ids.last().index as int, Slot::CheckedOut)
    }
}

/// The slots after restoring each entity of `ids`, innermost first, with the
/// value of the same position in `values`.
pub open spec fn restored_all<V>(slots: Seq<Slot<V>>, ids: Seq<EntityId>, values: Seq<V>) -> Seq<Slot<V>>
    decreases ids.len(),
{
    if ids.len() == 0 {
        slots
    } else {
        restored_all(
            slots.update(ids.last().index as int, Slot::Occupied(values.last())),
            ids.drop_last(),
            values.drop_last(),
        )
    }
}

proof fn lemma_checkout_commutes<V>(slots: Seq<Slot<V>>, ids: Seq<EntityId>, at: int, slot: Slot<V>)
    requires
        0 <= at < slots.len(),
        forall|k: int| 0 <= k < ids.len() ==> (#[trigger] ids[k]).index != at,
        forall|k: int| 0 <= k < ids.len() ==> (#[trigger] ids[k]).index < slots.len(),
    ensures
        checked_out_all(slots, ids).update(at, slot) == checked_out_all(slots.update(at, slot), ids),
        checked_out_all(slots, ids).len() == slots.len(),
    decreases ids.len(),
{
    if ids.len() > 0 {
        let rest = ids.drop_last();
        assert forall|k: int| 0 <= k < rest.len() implies (#[trigger] rest[k]).index != at by {
            assert(rest[k] == ids[k]);
        }
        assert forall|k: int| 0 <= k < rest.len() implies (#[trigger] rest[k]).index < slots.len() by {
            assert(rest[k] == ids[k]);
        }
        lemma_checkout_commutes(slots, rest, at, slot);
        assert(ids[ids.len() - 1].index != at);
        assert(checked_out_all(slots, ids).update(at, slot) =~= checked_out_all(slots.update(at, slot), ids));
    }
}

/// Any nesting of updates of distinct present entities, each checked out
/// on entry and restored on exit, leaves every one of them holding its new
/// value and every other slot as it was. This is the store that
/// `finish_update` restores at each level, and the one the outermost level
/// hands to the flush.
pub proof fn lemma_nested_updates_restore_all<V>(slots: Seq<Slot<V>>, ids: Seq<EntityId>, values: Seq<V>)
    requires
        values.len() == ids.len(),
        forall|k: int| 0 <= k < ids.len() ==> is_live(slots, #[trigger] ids[k]),
        forall|k: int, l: int| 0 <= k < l < ids.len() ==> ids[k] != ids[l],
    ensures
        ({
            let result = restored_all(checked_out_all(slots, ids), ids, values);
            &&& result.len() == slots.len()
            &&& forall|k: int| 0 <= k < ids.len() ==> result[(#[trigger] ids[k]).index as int] == Slot::Occupied(values[k])
            &&& forall|i: int| 0 <= i < slots.len() && (forall|k: int| 0 <= k < ids.len() ==> (#[trigger] ids[k]).index != i)
                ==> result[i] == slots[i]
        }),
    decreases ids.len(),
{
    if ids.len() > 0 {
        let n = ids.len() - 1;
        let last = ids[n];
        let rest = ids.drop_last();
        let at = last.index as int;
        let updated = slots.update(at, Slot::Occupied(values.last()));
        assert forall|k: int| 0 <= k < rest.len() implies (#[trigger] rest[k]).index != at by {
            assert(rest[k] == ids[k]);
            assert(ids[k] != ids[n]);
        }
        assert forall|k: int| 0 <= k < rest.len() implies (#[trigger] rest[k]).index < slots.len() by {
            assert(rest[k] == ids[k]);
            assert(is_live(slots, ids[k]));
        }
        lemma_checkout_commutes(slots, rest, at, Slot::CheckedOut);
        lemma_checkout_commutes(slots, rest, at, Slot::Occupied(values.last()));
        assert(checked_out_all(slots, ids).update(at, Slot::Occupied(values.last()))
            == checked_out_all(slots, rest).update(at, Slot::Occupied(values.last())));
        assert forall|k: int| 0 <= k < rest.len() implies is_live(updated, #[trigger] rest[k]) by {
            assert(rest[k] == ids[k]);
            assert(is_live(slots, ids[k]));
        }
        assert forall|k: int, l: int| 0 <= k < l < rest.len() implies rest[k] != rest[l] by {
            assert(rest[k] == ids[k] && rest[l] == ids[l]);
        }
        lemma_nested_updates_restore_all(updated, rest, values.drop_last());
        let result = restored_all(checked_out_all(slots, ids), ids, values);
        assert(result == restored_all(checked_out_all(updated, rest), rest, values.drop_last()));
        assert forall|k: int| 0 <= k < ids.len() implies result[(#[trigger] ids[k]).index as int] == Slot::Occupied(values[k]) by {
            if k < n {
                assert(rest[k] == ids[k]);
                assert(values.drop_last()[k] == values[k]);
            } else {
                assert(forall|j: int| 0 <= j < rest.len() ==> (#[trigger] rest[j]).index != at);
            }
        }
        assert forall|i: int| 0 <= i < slots.len() && (forall|k: int| 0 <= k < ids.len() ==> (#[trigger] ids[k]).index != i)
            implies result[i] == slots[i] by {
            assert(ids[n].index != i);
            assert forall|k: int| 0 <= k < rest.len() implies (#[trigger] rest[k]).index != i by {
                assert(rest[k] == ids[k]);
            }
        }
    }
}

/// A notification queued inside nested updates stays queued, and no
/// observer list changes, through every nested update that ends before the
/// outermost one.
pub proof fn lemma_notify_deferred<V>(states: Seq<AppContext<V>>, id: EntityId)
    requires
        states.len() > 0,
        states[0].queue().len() > 0,
        states[0].queue().last() == Effect::Notify(id),
        forall|k: int| 0 <= k < states.len() - 1 ==> leaves_nested_update(states[k], #[trigger] states[k + 1]),
        states.last().pending_updates > 0,
    ensures
        forall|k: int| 0 <= k < states.len() ==> {
            &&& (#[trigger] states[k]).queue() == states[0].queue()
            &&& states[k].observers@ == states[0].observers@
        },
    decreases states.len(),
{
    if states.len() > 1 {
        let prefix = states.drop_last();
        assert forall|k: int| 0 <= k < prefix.len() - 1 implies leaves_nested_update(prefix[k], #[trigger] prefix[k + 1]) by {
            assert(leaves_nested_update(states[k], states[k + 1]));
        }
        let n = states.len() - 1;
        let m = n - 1;
        assert(leaves_nested_update(states[m], states[m + 1]));
        assert(states[m + 1] == states[n]);
        assert(prefix.last().pending_updates > 0);
        lemma_notify_deferred(prefix, id);
        assert forall|k: int| 0 <= k < states.len() implies {
            &&& (#[trigger] states[k]).queue() == states[0].queue()
            &&& states[k].observers@ == states[0].observers@
        } by {
            if k < n {
                assert(states[k] == prefix[k]);
            }
        }
    }
}

/// Once an entity is released it is no longer live: an update through a
/// weak handle to it reports the release.
pub proof fn lemma_released_not_live<V>(slots: Seq<Slot<V>>, id: EntityId)
    requires
        id.index < slots.len(),
    ensures
        !is_live(slots.update(id.index as int, Slot::Released), id),
{
}

} // verus!
