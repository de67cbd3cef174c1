//! What one broadcast does, as a mathematical object: which actor is handed
//! which event, in what order, and what becomes of the slots once the actions
//! that came back are carried out.

use crate::actors::{ActorHandle, ActorTypes};
use crate::arena::{lookup, without};
use crate::events::{CreekAction, GlobalEvent};
use vstd::prelude::*;

verus! {

/// The actor in `cell` is handed `event` in a broadcast: the cell is occupied
/// and the event is meant for its occupant.
pub open spec fn receives<T>(cell: ActorHandle<T>, event: GlobalEvent) -> bool {
    cell.inner is Some && event.is_for(cell.id)
}

/// Event number `j` is owed to the actor in slot number `i`.
pub open spec fn is_due<T>(
    slots: Seq<ActorHandle<T>>,
    events: Seq<GlobalEvent>,
    i: int,
    j: int,
) -> bool {
    0 <= i < slots.len() && 0 <= j < events.len() && receives(slots[i], events[j])
}

/// `reply` is an answer that `actor` can give to `event`.
pub open spec fn may_reply<T: ActorTypes>(
    actor: T,
    event: GlobalEvent,
    reply: Option<Vec<CreekAction>>,
) -> bool {
    match reply {
        Some(list) => call_ensures(T::propogate_global_event, (&actor, &event), Some(&list)),
        None => call_ensures(T::propogate_global_event, (&actor, &event), None),
    }
}

/// One event handed to one actor, and the answer that came back.
pub ghost struct Delivery {
    /// The slot of the actor.
    pub slot: int,
    /// The place of the event in the queue.
    pub event: int,
    /// What the actor answered.
    pub reply: Option<Vec<CreekAction>>,
}

impl Delivery {
    /// The actions that the answer asks for; none where there was no answer.
    pub open spec fn actions(self) -> Seq<CreekAction> {
        match self.reply {
            Some(list) => list@,
            None => Seq::empty(),
        }
    }

    /// The delivery stands before event number `j` for slot number `i` in the
    /// order of a broadcast: slot by slot, and for each slot event by event.
    pub open spec fn is_before(self, i: int, j: int) -> bool {
        self.slot < i || (self.slot == i && self.event < j)
    }
}

/// `d` is a delivery of the broadcast of `events` to `slots`: the event was
/// owed to the actor, and the answer is one the actor can give.
pub open spec fn is_delivery<T: ActorTypes>(
    slots: Seq<ActorHandle<T>>,
    events: Seq<GlobalEvent>,
    d: Delivery,
) -> bool {
    is_due(slots, events, d.slot, d.event) && may_reply(
        slots[d.slot].inner->Some_0,
        events[d.event],
        d.reply,
    )
}

/// Entry number `k` of `log` is the delivery of event number `j` to slot
/// number `i`.
pub open spec fn records(log: Seq<Delivery>, k: int, i: int, j: int) -> bool {
    0 <= k < log.len() && log[k].slot == i && log[k].event == j
}

/// `log` is the record of a whole broadcast of `events` to `slots`. Each of
/// its entries is a delivery; the entries stand slot by slot in index order,
/// and for each slot in the order of the queue; and every event owed to an
/// actor has its entry. So every occupied slot is handed the events meant for
/// its occupant, each exactly once, and nobody is handed anything else.
pub open spec fn is_delivery_log<T: ActorTypes>(
    slots: Seq<ActorHandle<T>>,
    events: Seq<GlobalEvent>,
    log: Seq<Delivery>,
) -> bool {
    &&& forall|k: int| 0 <= k < log.len() ==> is_delivery(slots, events, #[trigger] log[k])
    &&& forall|k: int, l: int|
        0 <= k < l < log.len() ==> (#[trigger] log[k]).is_before(
            (#[trigger] log[l]).slot,
            log[l].event,
        )
    &&& forall|a: int, b: int|
        #![trigger is_due(slots, events, a, b)]
        is_due(slots, events, a, b) ==> exists|k: int| records(log, k, a, b)
}

/// `log` is the record of a broadcast of `events` to `slots` that has come as
/// far as event number `j` for slot number `i`, and has not yet dealt with that
/// one: all its entries are deliveries that stand before that point, they are
/// in the order of the broadcast, and no delivery owed before that point is
/// missing.
pub open spec fn is_log_until<T: ActorTypes>(
    slots: Seq<ActorHandle<T>>,
    events: Seq<GlobalEvent>,
    log: Seq<Delivery>,
    i: int,
    j: int,
) -> bool {
    &&& forall|k: int|
        0 <= k < log.len() ==> is_delivery(slots, events, #[trigger] log[k]) && log[k].is_before(
            i,
            j,
        )
    &&& forall|k: int, l: int|
        0 <= k < l < log.len() ==> (#[trigger] log[k]).is_before(
            (#[trigger] log[l]).slot,
            log[l].event,
        )
    &&& forall|a: int, b: int|
        #![trigger is_due(slots, events, a, b)]
        is_due(slots, events, a, b) && (a < i || (a == i && b < j)) ==> exists|k: int|
            records(log, k, a, b)
}

/// The actions that the deliveries of `log` brought back, in the order in
/// which they came.
pub open spec fn requested(log: Seq<Delivery>) -> Seq<CreekAction> {
    log.map_values(|d: Delivery| d.actions()).flatten()
}

/// `action` removes the occupant of slot number `i` of `slots`: it asks for a
/// removal, and its target is that slot at its current generation.
pub open spec fn strikes<T>(slots: Seq<ActorHandle<T>>, action: CreekAction, i: int) -> bool {
    &&& action.action_type is Destroy
    &&& action.target.index == i
    &&& lookup(slots, action.target) is Ok
}

/// One of `actions` removes the occupant of slot number `i`.
pub open spec fn is_condemned<T>(
    slots: Seq<ActorHandle<T>>,
    actions: Seq<CreekAction>,
    i: int,
) -> bool {
    exists|k: int| 0 <= k < actions.len() && strikes(slots, #[trigger] actions[k], i)
}

/// The slots once all of `actions` are carried out: a slot that one of them
/// strikes is empty, every other slot is as it was. An action whose target
/// names no slot, or a slot of another generation, changes nothing.
pub open spec fn carried_out<T>(slots: Seq<ActorHandle<T>>, actions: Seq<CreekAction>) -> Seq<
    ActorHandle<T>,
> {
    Seq::new(
        slots.len(),
        |i: int|
            if is_condemned(slots, actions, i) {
                slots[i].vacated()
            } else {
                slots[i]
            },
    )
}

/// A record that has dealt with nothing yet is empty.
pub proof fn lemma_log_start<T: ActorTypes>(slots: Seq<ActorHandle<T>>, events: Seq<GlobalEvent>)
    ensures
        is_log_until(slots, events, Seq::<Delivery>::empty(), 0, 0),
        requested(Seq::<Delivery>::empty()) == Seq::<CreekAction>::empty(),
{
    assert(Seq::<Delivery>::empty().map_values(|d: Delivery| d.actions())
        =~= Seq::<Seq<CreekAction>>::empty());
}

/// Where the event at hand is not owed to the slot at hand, the record stands
/// for the next event as it is.
pub proof fn lemma_log_skip<T: ActorTypes>(
    slots: Seq<ActorHandle<T>>,
    events: Seq<GlobalEvent>,
    log: Seq<Delivery>,
    i: int,
    j: int,
)
    requires
        is_log_until(slots, events, log, i, j),
        !is_due(slots, events, i, j),
    ensures
        is_log_until(slots, events, log, i, j + 1),
{
}

/// Where the event at hand is delivered, the record grows by that delivery,
/// and the actions by those of its answer.
pub proof fn lemma_log_push<T: ActorTypes>(
    slots: Seq<ActorHandle<T>>,
    events: Seq<GlobalEvent>,
    log: Seq<Delivery>,
    d: Delivery,
)
    requires
        is_log_until(slots, events, log, d.slot, d.event),
        is_delivery(slots, events, d),
    ensures
        is_log_until(slots, events, log.push(d), d.slot, d.event + 1),
        requested(log.push(d)) == requested(log) + d.actions(),
{
    let longer = log.push(d);
    assert forall|a: int, b: int|
        #![trigger is_due(slots, events, a, b)]
        is_due(slots, events, a, b) && (a < d.slot || (a == d.slot && b < d.event + 1))
        implies exists|k: int| records(longer, k, a, b) by {
        if a == d.slot && b == d.event {
            assert(records(longer, log.len() as int, a, b));
        } else {
            let k = choose|k: int| records(log, k, a, b);
            assert(records(longer, k, a, b));
        }
    }
    let f = |d: Delivery| d.actions();
    assert(longer.map_values(f) =~= log.map_values(f).push(d.actions()));
    log.map_values(f).lemma_flatten_push(d.actions());
}

/// Once the queue is through for one slot, the record stands for the start
/// of the next slot.
pub proof fn lemma_log_next_slot<T: ActorTypes>(
    slots: Seq<ActorHandle<T>>,
    events: Seq<GlobalEvent>,
    log: Seq<Delivery>,
    i: int,
    j: int,
)
    requires
        is_log_until(slots, events, log, i, j),
        j >= events.len() || !(0 <= i < slots.len()) || slots[i].inner is None,
    ensures
        is_log_until(slots, events, log, i + 1, 0),
{
    assert forall|a: int, b: int|
        #![trigger is_due(slots, events, a, b)]
        is_due(slots, events, a, b) && (a < i + 1 || (a == i + 1 && b < 0))
        implies exists|k: int| records(log, k, a, b) by {
        assert(a < i || (a == i && b < j));
    }
}

/// A record that has come past the last slot is the record of the whole
/// broadcast.
pub proof fn lemma_log_end<T: ActorTypes>(
    slots: Seq<ActorHandle<T>>,
    events: Seq<GlobalEvent>,
    log: Seq<Delivery>,
    i: int,
)
    requires
        is_log_until(slots, events, log, i, 0),
        i >= slots.len(),
    ensures
        is_delivery_log(slots, events, log),
{
}

/// Every action of every answer is among the actions that the broadcast
/// brought back.
pub proof fn lemma_answer_is_requested(log: Seq<Delivery>, k: int, m: int)
    requires
        0 <= k < log.len(),
        0 <= m < log[k].actions().len(),
    ensures
        exists|p: int| 0 <= p < requested(log).len() && requested(log)[p] == log[k].actions()[m],
    decreases log.len(),
{
    let f = |d: Delivery| d.actions();
    let shorter = log.drop_last();
    assert(log =~= shorter.push(log.last()));
    assert(log.map_values(f) =~= shorter.map_values(f).push(log.last().actions()));
    shorter.map_values(f).lemma_flatten_push(log.last().actions());
    assert(requested(log) =~= requested(shorter) + log.last().actions());
    if k == log.len() - 1 {
        let p = requested(shorter).len() + m;
        assert(requested(log)[p] == log[k].actions()[m]);
    } else {
        lemma_answer_is_requested(shorter, k, m);
        let p = choose|p: int|
            0 <= p < requested(shorter).len() && requested(shorter)[p] == shorter[k].actions()[m];
        assert(requested(log)[p] == log[k].actions()[m]);
    }
}

/// Every action that the broadcast brought back is part of the answer of one
/// of its deliveries.
pub proof fn lemma_requested_is_an_answer(log: Seq<Delivery>, p: int)
    requires
        0 <= p < requested(log).len(),
    ensures
        exists|k: int, m: int|
            0 <= k < log.len() && 0 <= m < log[k].actions().len() && requested(log)[p]
                == #[trigger] log[k].actions()[m],
    decreases log.len(),
{
    let f = |d: Delivery| d.actions();
    if log.len() == 0 {
        assert(log.map_values(f) =~= Seq::<Seq<CreekAction>>::empty());
    } else {
        let shorter = log.drop_last();
        assert(log =~= shorter.push(log.last()));
        assert(log.map_values(f) =~= shorter.map_values(f).push(log.last().actions()));
        shorter.map_values(f).lemma_flatten_push(log.last().actions());
        assert(requested(log) =~= requested(shorter) + log.last().actions());
        if p < requested(shorter).len() {
            lemma_requested_is_an_answer(shorter, p);
            let (k, m) = choose|k: int, m: int|
                0 <= k < shorter.len() && 0 <= m < shorter[k].actions().len() && requested(
                    shorter,
                )[p] == #[trigger] shorter[k].actions()[m];
            assert(requested(log)[p] == log[k].actions()[m]);
        } else {
            let k = log.len() - 1;
            let m = p - requested(shorter).len();
            assert(requested(log)[p] == log[k].actions()[m]);
        }
    }
}

/// Carrying out no action leaves the slots as they are.
pub proof fn lemma_carried_out_none<T>(slots: Seq<ActorHandle<T>>)
    ensures
        carried_out(slots, Seq::<CreekAction>::empty()) == slots,
{
    assert(carried_out(slots, Seq::<CreekAction>::empty()) =~= slots);
}

/// Carrying out one more action is removing its target from what the earlier
/// actions left: the earlier removals have changed no generation, so the
/// target is judged as it would have been at the start.
pub proof fn lemma_carried_out_push<T>(
    slots: Seq<ActorHandle<T>>,
    actions: Seq<CreekAction>,
    action: CreekAction,
)
    ensures
        carried_out(slots, actions.push(action)) == without(
            carried_out(slots, actions),
            action.target,
        ),
        lookup(carried_out(slots, actions), action.target) == lookup(slots, action.target),
{
    let more = actions.push(action);
    let before = carried_out(slots, actions);
    let after = without(before, action.target);
    assert(action.action_type is Destroy);
    assert forall|i: int| 0 <= i < slots.len() implies #[trigger] carried_out(slots, more)[i]
        == after[i] by {
        if is_condemned(slots, actions, i) {
            let k = choose|k: int| 0 <= k < actions.len() && strikes(slots, #[trigger] actions[k], i);
            assert(more[k] == actions[k]);
            assert(is_condemned(slots, more, i));
        } else if strikes(slots, action, i) {
            assert(more[actions.len() as int] == action);
            assert(is_condemned(slots, more, i));
        } else {
            if is_condemned(slots, more, i) {
                let k = choose|k: int| 0 <= k < more.len() && strikes(slots, #[trigger] more[k], i);
                if k < actions.len() {
                    assert(more[k] == actions[k]);
                }
                assert(false);
            }
        }
    }
    assert(carried_out(slots, more) =~= after);
}

} // verus!
