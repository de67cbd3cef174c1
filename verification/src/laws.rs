//! What holds of every runtime, whatever is done with it. Each law is stated
//! over the arena and the broadcast as the contracts of the runtime describe
//! them, and proved.

use crate::actors::{ActorHandle, ActorID, ActorTypes};
use crate::arena::{
    is_landing, landing_id, landing_is_free, lookup, placed, succeeds, well_formed, without,
};
use crate::delivery::{
    carried_out, is_condemned, is_delivery_log, is_due, lemma_answer_is_requested,
    lemma_requested_is_an_answer, records, requested, strikes, Delivery,
};
use crate::events::{CreekAction, CreekError, GlobalEvent};
use vstd::prelude::*;

verus! {

/// There is one place where the next actor lands, and it is the lowest empty
/// slot: no two indices pass for it.
pub proof fn lemma_landing_is_unique<T>(slots: Seq<ActorHandle<T>>, a: int, b: int)
    requires
        is_landing(slots, a),
        is_landing(slots, b),
    ensures
        a == b,
{
    if a < b {
        assert(slots[a].inner is Some);
    } else if b < a {
        assert(slots[b].inner is Some);
    }
}

/// In a well-formed arena the cell that an identifier finds carries that very
/// identifier.
pub proof fn lemma_found_cell_is_named<T>(slots: Seq<ActorHandle<T>>, id: ActorID)
    requires
        well_formed(slots),
        lookup(slots, id) is Ok,
    ensures
        slots[id.index as int].id == id,
{
}

/// The identifier that names no actor is never found in a well-formed arena.
pub proof fn lemma_nil_names_no_actor<T>(slots: Seq<ActorHandle<T>>)
    requires
        well_formed(slots),
    ensures
        lookup(slots, ActorID::nil()) is Err,
{
}

/// An arena without slots finds no identifier at all.
pub proof fn lemma_empty_arena_finds_nothing<T>(id: ActorID)
    ensures
        lookup(Seq::<ActorHandle<T>>::empty(), id) == Err::<(), CreekError>(
            CreekError::ActorDoesNotExistAtIndex,
        ),
{
}

/// Taking an actor in keeps a well-formed arena well-formed, as long as the
/// cell is left with the identifier it was given.
pub proof fn lemma_placed_is_well_formed<T>(slots: Seq<ActorHandle<T>>, n: int, cell: ActorHandle<T>)
    requires
        well_formed(slots),
        is_landing(slots, n),
        landing_is_free(slots, n),
        n <= usize::MAX,
        cell.id == landing_id(slots, n),
    ensures
        well_formed(placed(slots, n, cell)),
        lookup(placed(slots, n, cell), cell.id) is Ok,
        placed(slots, n, cell)[n] == cell,
{
}

/// Removing an actor keeps a well-formed arena well-formed.
pub proof fn lemma_without_is_well_formed<T>(slots: Seq<ActorHandle<T>>, id: ActorID)
    requires
        well_formed(slots),
    ensures
        well_formed(without(slots, id)),
{
}

/// Carrying out actions keeps a well-formed arena well-formed.
pub proof fn lemma_carried_out_is_well_formed<T>(
    slots: Seq<ActorHandle<T>>,
    actions: Seq<CreekAction>,
)
    requires
        well_formed(slots),
    ensures
        well_formed(carried_out(slots, actions)),
{
}

/// Every arena can come after itself.
pub proof fn lemma_succeeds_itself<T>(slots: Seq<ActorHandle<T>>)
    ensures
        succeeds(slots, slots),
{
}

/// What can come after a successor of an arena can come after the arena itself.
pub proof fn lemma_succeeds_in_turn<T>(
    first: Seq<ActorHandle<T>>,
    second: Seq<ActorHandle<T>>,
    third: Seq<ActorHandle<T>>,
)
    requires
        succeeds(first, second),
        succeeds(second, third),
    ensures
        succeeds(first, third),
{
    assert forall|i: int| 0 <= i < first.len() implies (#[trigger] first[i]).id.gen
        <= third[i].id.gen by {
        assert(first[i].id.gen <= second[i].id.gen);
        assert(second[i].id.gen <= third[i].id.gen);
    }
}

/// Taking an actor in gives up no slot and takes no generation back.
pub proof fn lemma_placed_succeeds<T>(slots: Seq<ActorHandle<T>>, n: int, cell: ActorHandle<T>)
    requires
        is_landing(slots, n),
        landing_is_free(slots, n),
        cell.id == landing_id(slots, n),
    ensures
        succeeds(slots, placed(slots, n, cell)),
{
}

/// Removing an actor gives up no slot and changes no generation.
pub proof fn lemma_without_succeeds<T>(slots: Seq<ActorHandle<T>>, id: ActorID)
    ensures
        succeeds(slots, without(slots, id)),
{
}

/// Carrying out actions gives up no slot and changes no generation.
pub proof fn lemma_carried_out_succeeds<T>(slots: Seq<ActorHandle<T>>, actions: Seq<CreekAction>)
    ensures
        succeeds(slots, carried_out(slots, actions)),
{
}

/// An actor that lands in a slot that was used before gets a generation
/// strictly above that of the slot's last occupant.
pub proof fn lemma_reuse_advances_generation<T>(slots: Seq<ActorHandle<T>>, n: int)
    requires
        is_landing(slots, n),
        landing_is_free(slots, n),
        n < slots.len(),
    ensures
        landing_id(slots, n).gen > slots[n].id.gen,
        landing_id(slots, n).gen == slots[n].id.gen + 1,
{
}

/// The identifier that the next actor gets was found at no earlier time in the
/// life of the arena, and is not found now.
pub proof fn lemma_new_identifier_is_fresh<T>(
    earlier: Seq<ActorHandle<T>>,
    now: Seq<ActorHandle<T>>,
    n: int,
)
    requires
        succeeds(earlier, now),
        is_landing(now, n),
        landing_is_free(now, n),
        n <= usize::MAX,
    ensures
        lookup(earlier, landing_id(now, n)) is Err,
        lookup(now, landing_id(now, n)) is Err,
{
    let id = landing_id(now, n);
    if id.index < earlier.len() {
        assert(earlier[n].id.gen <= now[n].id.gen);
    }
}

/// Two actors that are taken in one after the other, with whatever happens to
/// the arena in between, get different identifiers: an identifier belongs to
/// one arrival only.
pub proof fn lemma_arrivals_get_different_identifiers<T>(
    first: Seq<ActorHandle<T>>,
    n1: int,
    cell: ActorHandle<T>,
    second: Seq<ActorHandle<T>>,
    n2: int,
)
    requires
        is_landing(first, n1),
        landing_is_free(first, n1),
        n1 <= usize::MAX,
        cell.id == landing_id(first, n1),
        succeeds(placed(first, n1, cell), second),
        is_landing(second, n2),
        landing_is_free(second, n2),
        n2 <= usize::MAX,
    ensures
        landing_id(first, n1) != landing_id(second, n2),
{
    let between = placed(first, n1, cell);
    assert(between[n1] == cell);
    assert(lookup(between, cell.id) is Ok);
    lemma_new_identifier_is_fresh(between, second, n2);
}

/// An actor arrives: `after` is `before` with a new actor at `n`, the place
/// where the next actor lands, under the identifier that is due there.
pub open spec fn is_arrival<T>(
    before: Seq<ActorHandle<T>>,
    after: Seq<ActorHandle<T>>,
    n: int,
) -> bool {
    &&& is_landing(before, n)
    &&& landing_is_free(before, n)
    &&& n <= usize::MAX
    &&& n < after.len()
    &&& after[n].id == landing_id(before, n)
    &&& after == placed(before, n, after[n])
}

/// The cell of slot number `i` is edited: what it holds may change, its
/// identifier does not, and no other slot is touched.
pub open spec fn is_edit<T>(before: Seq<ActorHandle<T>>, after: Seq<ActorHandle<T>>, i: int) -> bool {
    &&& 0 <= i < before.len()
    &&& after == before.update(i, after[i])
    &&& after[i].id == before[i].id
}

/// One thing happens to the arena: an actor arrives, the actor that an
/// identifier names is removed, the actions of a broadcast are carried out,
/// or a cell is edited.
pub open spec fn is_step<T>(before: Seq<ActorHandle<T>>, after: Seq<ActorHandle<T>>) -> bool {
    ||| exists|n: int| is_arrival(before, after, n)
    ||| exists|id: ActorID| after == without(before, id)
    ||| exists|actions: Seq<CreekAction>| after == carried_out(before, actions)
    ||| exists|i: int| is_edit(before, after, i)
}

/// `states` is a life of one arena: each state comes from the one before it
/// by one step.
pub open spec fn is_history<T>(states: Seq<Seq<ActorHandle<T>>>) -> bool {
    forall|t: int| 0 <= t < states.len() - 1 ==> is_step(#[trigger] states[t], states[t + 1])
}

/// A step gives up no slot and takes no generation back, and it keeps a
/// well-formed arena well-formed.
pub proof fn lemma_step_succeeds<T>(before: Seq<ActorHandle<T>>, after: Seq<ActorHandle<T>>)
    requires
        is_step(before, after),
    ensures
        succeeds(before, after),
        well_formed(before) ==> well_formed(after),
{
}

/// In the life of an arena every later state can come after every earlier
/// one.
pub proof fn lemma_history_succeeds<T>(states: Seq<Seq<ActorHandle<T>>>, a: int, b: int)
    requires
        is_history(states),
        0 <= a <= b < states.len(),
    ensures
        succeeds(states[a], states[b]),
        well_formed(states[a]) ==> well_formed(states[b]),
    decreases b - a,
{
    if a < b {
        lemma_history_succeeds(states, a, b - 1);
        assert(is_step(states[b - 1], states[b]));
        lemma_step_succeeds(states[b - 1], states[b]);
        lemma_succeeds_in_turn(states[a], states[b - 1], states[b]);
    }
}

/// Over the whole life of an arena, whatever arrives, leaves or is edited in
/// it, no identifier is given out twice: two arrivals at different times get
/// different identifiers, so two identifiers that are equal name the same
/// arrival.
pub proof fn lemma_identifiers_are_given_out_once<T>(
    states: Seq<Seq<ActorHandle<T>>>,
    t1: int,
    n1: int,
    t2: int,
    n2: int,
)
    requires
        is_history(states),
        0 <= t1 < t2 < states.len() - 1,
        is_arrival(states[t1], states[t1 + 1], n1),
        is_arrival(states[t2], states[t2 + 1], n2),
    ensures
        landing_id(states[t1], n1) != landing_id(states[t2], n2),
{
    lemma_history_succeeds(states, t1 + 1, t2);
    lemma_arrivals_get_different_identifiers(
        states[t1],
        n1,
        states[t1 + 1][n1],
        states[t2],
        n2,
    );
}

/// An identifier that was found at some time is, at every later time, either
/// still found in the same slot at the same generation, or turned down as
/// invalidated; it never comes to name a slot it did not name before.
pub proof fn lemma_identifier_is_found_or_stale<T>(
    states: Seq<Seq<ActorHandle<T>>>,
    a: int,
    b: int,
    id: ActorID,
)
    requires
        is_history(states),
        0 <= a <= b < states.len(),
        lookup(states[a], id) is Ok,
    ensures
        lookup(states[b], id) is Ok || lookup(states[b], id) == Err::<(), CreekError>(
            CreekError::ActorIdInvalidated,
        ),
        lookup(states[b], id) is Err ==> states[b][id.index as int].id.gen > id.gen,
{
    lemma_history_succeeds(states, a, b);
    assert(states[a][id.index as int].id.gen <= states[b][id.index as int].id.gen);
}

/// An identifier whose slot has moved on to a later generation is stale for
/// good: whatever happens to the arena afterwards, it is turned down as
/// invalidated.
pub proof fn lemma_stale_stays_stale<T>(
    earlier: Seq<ActorHandle<T>>,
    later: Seq<ActorHandle<T>>,
    id: ActorID,
)
    requires
        succeeds(earlier, later),
        id.index < earlier.len(),
        id.gen < earlier[id.index as int].id.gen,
    ensures
        lookup(later, id) == Err::<(), CreekError>(CreekError::ActorIdInvalidated),
{
    assert(earlier[id.index as int].id.gen <= later[id.index as int].id.gen);
}

/// Once an actor is removed and another has taken its slot, the identifier of
/// the first is turned down as invalidated, while that of the second is found.
pub proof fn lemma_reuse_invalidates<T>(slots: Seq<ActorHandle<T>>, id: ActorID, cell: ActorHandle<T>)
    requires
        lookup(slots, id) is Ok,
        is_landing(without(slots, id), id.index as int),
        landing_is_free(without(slots, id), id.index as int),
        cell.id == landing_id(without(slots, id), id.index as int),
    ensures
        lookup(placed(without(slots, id), id.index as int, cell), id) == Err::<(), CreekError>(
            CreekError::ActorIdInvalidated,
        ),
        lookup(placed(without(slots, id), id.index as int, cell), cell.id) is Ok,
        cell.id.index == id.index,
        cell.id.gen == id.gen + 1,
{
}

/// No delivery is made twice: a broadcast has at most one entry for a given
/// slot and event.
pub proof fn lemma_delivered_once<T: ActorTypes>(
    slots: Seq<ActorHandle<T>>,
    events: Seq<GlobalEvent>,
    log: Seq<Delivery>,
    k: int,
    l: int,
)
    requires
        is_delivery_log(slots, events, log),
        0 <= k < log.len(),
        0 <= l < log.len(),
        log[k].slot == log[l].slot,
        log[k].event == log[l].event,
    ensures
        k == l,
{
    if k < l {
        assert(log[k].is_before(log[l].slot, log[l].event));
    } else if l < k {
        assert(log[l].is_before(log[k].slot, log[k].event));
    }
}

/// An event with a target reaches no actor but the one that the target names:
/// every delivery of it is to the slot of the target, which is occupied and at
/// the target's generation.
pub proof fn lemma_targeted_event_reaches_only_its_target<T: ActorTypes>(
    slots: Seq<ActorHandle<T>>,
    events: Seq<GlobalEvent>,
    log: Seq<Delivery>,
    k: int,
    id: ActorID,
)
    requires
        well_formed(slots),
        is_delivery_log(slots, events, log),
        0 <= k < log.len(),
        events[log[k].event].target == Some(id),
    ensures
        log[k].slot == id.index,
        slots[log[k].slot].id == id,
        slots[log[k].slot].inner is Some,
        lookup(slots, id) is Ok,
{
    assert(is_due(slots, events, log[k].slot, log[k].event));
}

/// An event with a target does reach the actor that the target names, where
/// that actor is still in its slot.
pub proof fn lemma_targeted_event_reaches_its_target<T: ActorTypes>(
    slots: Seq<ActorHandle<T>>,
    events: Seq<GlobalEvent>,
    log: Seq<Delivery>,
    j: int,
    id: ActorID,
)
    requires
        well_formed(slots),
        is_delivery_log(slots, events, log),
        0 <= j < events.len(),
        events[j].target == Some(id),
        lookup(slots, id) is Ok,
        slots[id.index as int].inner is Some,
    ensures
        exists|k: int| records(log, k, id.index as int, j),
{
    assert(is_due(slots, events, id.index as int, j));
}

/// An event without a target reaches the actor of every occupied slot.
pub proof fn lemma_untargeted_event_reaches_everyone<T: ActorTypes>(
    slots: Seq<ActorHandle<T>>,
    events: Seq<GlobalEvent>,
    log: Seq<Delivery>,
    i: int,
    j: int,
)
    requires
        is_delivery_log(slots, events, log),
        0 <= i < slots.len(),
        slots[i].inner is Some,
        0 <= j < events.len(),
        events[j].target is None,
    ensures
        exists|k: int| records(log, k, i, j),
{
    assert(is_due(slots, events, i, j));
}

/// A removal that an actor asks for during a broadcast waits until the
/// broadcast is over. Say the actor in slot `i` answers one of its events
/// with a request to be removed itself. The deliveries are still those owed to
/// the slots as they were when the broadcast began: the actor that is to go
/// gets every event meant for it, and so does every other actor, whether its
/// turn comes before or after the request. Only in the slots that the
/// broadcast leaves behind is the actor gone, its slot kept at the same
/// generation.
pub proof fn lemma_removal_waits_for_the_broadcast<T: ActorTypes>(
    slots: Seq<ActorHandle<T>>,
    events: Seq<GlobalEvent>,
    log: Seq<Delivery>,
    k: int,
    m: int,
)
    requires
        well_formed(slots),
        is_delivery_log(slots, events, log),
        0 <= k < log.len(),
        0 <= m < log[k].actions().len(),
        log[k].actions()[m].action_type is Destroy,
        log[k].actions()[m].target == slots[log[k].slot].id,
    ensures
        slots[log[k].slot].inner is Some,
        forall|a: int, b: int|
            #![trigger is_due(slots, events, a, b)]
            is_due(slots, events, a, b) ==> exists|l: int| records(log, l, a, b),
        forall|b: int|
            0 <= b < events.len() && (#[trigger] events[b]).is_for(slots[log[k].slot].id)
                ==> exists|l: int| records(log, l, log[k].slot, b),
        is_condemned(slots, requested(log), log[k].slot),
        carried_out(slots, requested(log))[log[k].slot] == slots[log[k].slot].vacated(),
{
    let i = log[k].slot;
    assert(is_due(slots, events, i, log[k].event));
    assert forall|b: int| 0 <= b < events.len() && (#[trigger] events[b]).is_for(slots[i].id)
        implies exists|l: int| records(log, l, i, b) by {
        assert(is_due(slots, events, i, b));
    }
    lemma_answer_is_requested(log, k, m);
    let p = choose|p: int|
        0 <= p < requested(log).len() && requested(log)[p] == log[k].actions()[m];
    assert(strikes(slots, requested(log)[p], i));
}

/// An actor is removed by a broadcast only if some actor asked for it: a slot
/// that the broadcast empties was struck by an action that one of the
/// deliveries brought back.
pub proof fn lemma_removal_was_asked_for<T: ActorTypes>(
    slots: Seq<ActorHandle<T>>,
    events: Seq<GlobalEvent>,
    log: Seq<Delivery>,
    i: int,
)
    requires
        is_delivery_log(slots, events, log),
        0 <= i < slots.len(),
        slots[i].inner is Some,
        carried_out(slots, requested(log))[i].inner is None,
    ensures
        exists|k: int, m: int|
            0 <= k < log.len() && 0 <= m < log[k].actions().len() && strikes(
                slots,
                #[trigger] log[k].actions()[m],
                i,
            ),
{
    assert(is_condemned(slots, requested(log), i));
    let p = choose|p: int|
        0 <= p < requested(log).len() && strikes(slots, #[trigger] requested(log)[p], i);
    lemma_requested_is_an_answer(log, p);
    let (k, m) = choose|k: int, m: int|
        0 <= k < log.len() && 0 <= m < log[k].actions().len() && requested(log)[p]
            == #[trigger] log[k].actions()[m];
    assert(strikes(slots, log[k].actions()[m], i));
}

/// A slot that no action strikes is left as it was.
pub proof fn lemma_spared_slot_is_untouched<T>(
    slots: Seq<ActorHandle<T>>,
    actions: Seq<CreekAction>,
    i: int,
)
    requires
        0 <= i < slots.len(),
        !is_condemned(slots, actions, i),
    ensures
        carried_out(slots, actions)[i] == slots[i],
{
}

} // verus!
