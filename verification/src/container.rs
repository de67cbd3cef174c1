//! The runtime: the slots that hold the actors and the queue of events that
//! wait for the next broadcast.

use crate::actors::{ActorHandle, ActorID, ActorTypes};
use crate::arena::{
    is_landing, landing_id, landing_is_free, lookup, placed, succeeds, well_formed, without,
};
use crate::delivery::{
    carried_out, is_delivery_log, is_log_until, lemma_carried_out_none, lemma_carried_out_push,
    lemma_log_end, lemma_log_next_slot, lemma_log_push, lemma_log_skip, lemma_log_start, requested,
    Delivery,
};
use crate::events::{CreekAction, CreekActionType, CreekError, GlobalEvent, GlobalEventType};
use vstd::prelude::*;

verus! {

/// A runtime as contracts see it.
pub ghost struct CreekView<T> {
    /// The slots, in index order.
    pub slots: Seq<ActorHandle<T>>,
    /// The events that wait for the next broadcast, oldest first.
    pub events: Seq<GlobalEvent>,
}

/// Holds the actors of one family and the events they have yet to receive.
#[derive(Clone)]
pub struct Creek<T> {
    actors: Vec<ActorHandle<T>>,
    events: Vec<GlobalEvent>,
}

impl<T> View for Creek<T> {
    type V = CreekView<T>;

    closed spec fn view(&self) -> CreekView<T> {
        CreekView { slots: self.actors@, events: self.events@ }
    }
}

impl<T: ActorTypes> Creek<T> {
    /// A runtime without slots and without pending events.
    pub fn new() -> (creek: Creek<T>)
        ensures
            creek@.slots == Seq::<ActorHandle<T>>::empty(),
            creek@.events == Seq::<GlobalEvent>::empty(),
            well_formed(creek@.slots),
    {
        Creek { actors: Vec::new(), events: Vec::new() }
    }

    /// The slots, in index order.
    pub fn actor_slots(&self) -> (slots: &Vec<ActorHandle<T>>)
        ensures
            slots@ == self@.slots,
    {
        &self.actors
    }

    /// The events that wait for the next broadcast, oldest first.
    pub fn pending_events(&self) -> (events: &Vec<GlobalEvent>)
        ensures
            events@ == self@.events,
    {
        &self.events
    }

    /// Queues an event for the next broadcast, behind those already waiting.
    pub fn push_event(&mut self, event_type: GlobalEventType, target: Option<ActorID>)
        ensures
            final(self)@.events == old(self)@.events.push(GlobalEvent { event_type, target }),
            final(self)@.slots == old(self)@.slots,
    {
        self.events.push(GlobalEvent { event_type, target });
    }

    /// The slot where the next actor lands: the lowest empty one, or the
    /// number of slots where all are taken.
    pub fn landing_index(&self) -> (n: usize)
        ensures
            is_landing(self@.slots, n as int),
    {
        let mut n: usize = 0;
        while n < self.actors.len() && self.actors[n].inner.is_some()
            invariant
                n <= self.actors.len(),
                forall|j: int| 0 <= j < n ==> (#[trigger] self.actors@[j]).inner is Some,
            decreases self.actors.len() - n,
        {
            n = n + 1;
        }
        n
    }

    /// Whether the next actor can be taken in: its generation must stay below
    /// the one set aside for [`ActorID::nil`]. Only a slot that has been reused
    /// about `usize::MAX` times stands in the way.
    pub fn can_add_actor(&self) -> (free: bool)
        ensures
            free == (forall|n: int| is_landing(self@.slots, n) ==> landing_is_free(self@.slots, n)),
    {
        let n: usize = self.landing_index();
        n >= self.actors.len() || self.actors[n].id.gen < usize::MAX - 1
    }

    /// Takes `actor_type` in. It lands in the lowest empty slot, one
    /// generation after the slot's last occupant, or in a new slot at
    /// generation zero where no slot is empty. Two events are queued: one that
    /// tells everyone of the new actor, and one that tells the new actor that
    /// it has been added.
    ///
    /// The cell that is handed back is the one the runtime keeps: what the
    /// caller leaves in it is what the slot holds afterwards. A caller that
    /// leaves the cell's identifier alone leaves the arena in order.
    ///
    /// The generation of the new actor must stay below the one set aside for
    /// [`ActorID::nil`]; [`Creek::can_add_actor`] tells whether it does.
    pub fn add_actor(&mut self, actor_type: T) -> (cell: &mut ActorHandle<T>)
        requires
            forall|n: int| is_landing(old(self)@.slots, n) ==> landing_is_free(old(self)@.slots, n),
        ensures
            is_landing(old(self)@.slots, cell.id.index as int),
            cell.id == landing_id(old(self)@.slots, cell.id.index as int),
            cell.inner == Some(actor_type),
            final(self)@.slots == placed(old(self)@.slots, cell.id.index as int, *final(cell)),
            final(self)@.events == old(self)@.events.push(
                GlobalEvent { event_type: GlobalEventType::ActorAdded(cell.id), target: None },
            ).push(GlobalEvent { event_type: GlobalEventType::AddedToCreek, target: Some(cell.id) }),
            final(cell).id == cell.id ==> succeeds(old(self)@.slots, final(self)@.slots),
            final(cell).id == cell.id && well_formed(old(self)@.slots) ==> well_formed(
                final(self)@.slots,
            ),
    {
        let index: usize = self.landing_index();
        let mut actor_handle = ActorHandle::new(actor_type);
        actor_handle.id.index = index;
        if index < self.actors.len() {
            actor_handle.id.gen = self.actors[index].id.gen + 1;
            self.actors[index] = actor_handle;
        } else {
            actor_handle.id.gen = 0;
            self.actors.push(actor_handle);
        }
        let id = self.actors[index].id;
        self.push_event(GlobalEventType::ActorAdded(id), None);
        self.push_event(GlobalEventType::AddedToCreek, Some(id));
        &mut self.actors[index]
    }

    /// Checks `id` against the slots as they are now.
    pub fn validate_actor_id(&self, id: ActorID) -> (valid: Result<(), CreekError>)
        ensures
            valid == lookup(self@.slots, id),
    {
        if id.index < self.actors.len() {
            if self.actors[id.index].id.gen == id.gen {
                return Ok(());
            }
            return Err(CreekError::ActorIdInvalidated);
        }
        Err(CreekError::ActorDoesNotExistAtIndex)
    }

    /// The cell that `id` names, or the reason why `id` names none. A cell
    /// whose actor is gone is still found, as long as no other actor has taken
    /// the slot.
    pub fn get_actor(&self, id: ActorID) -> (found: Result<&ActorHandle<T>, CreekError>)
        ensures
            match found {
                Ok(cell) => lookup(self@.slots, id) is Ok && *cell == self@.slots[id.index as int],
                Err(e) => lookup(self@.slots, id) == Err::<(), CreekError>(e),
            },
    {
        match self.validate_actor_id(id) {
            Ok(()) => Ok(&self.actors[id.index]),
            Err(e) => Err(e),
        }
    }

    /// The cell that `id` names, for editing, or the reason why `id` names
    /// none. What the caller leaves in the cell is what the slot holds
    /// afterwards; nothing else changes. A caller that leaves the cell's
    /// identifier alone leaves the arena in order.
    pub fn get_actor_mut(&mut self, id: ActorID) -> (found: Result<&mut ActorHandle<T>, CreekError>)
        ensures
            final(self)@.events == old(self)@.events,
            match found {
                Ok(cell) => {
                    &&& lookup(old(self)@.slots, id) is Ok
                    &&& *cell == old(self)@.slots[id.index as int]
                    &&& final(self)@.slots == old(self)@.slots.update(id.index as int, *final(cell))
                    &&& final(cell).id == cell.id ==> succeeds(old(self)@.slots, final(self)@.slots)
                    &&& final(cell).id == cell.id && well_formed(old(self)@.slots) ==> well_formed(
                        final(self)@.slots,
                    )
                },
                Err(e) => {
                    &&& lookup(old(self)@.slots, id) == Err::<(), CreekError>(e)
                    &&& final(self)@.slots == old(self)@.slots
                },
            },
    {
        match self.validate_actor_id(id) {
            Ok(()) => Ok(&mut self.actors[id.index]),
            Err(e) => Err(e),
        }
    }

    /// Removes the actor that `id` names. Its slot stays, empty and at the
    /// same generation, until a new actor lands there. Where `id` names no
    /// slot nothing changes and the reason is returned.
    pub fn destroy_actor(&mut self, id: ActorID) -> (done: Result<(), CreekError>)
        ensures
            done == lookup(old(self)@.slots, id),
            final(self)@.slots == without(old(self)@.slots, id),
            final(self)@.events == old(self)@.events,
            succeeds(old(self)@.slots, final(self)@.slots),
            well_formed(old(self)@.slots) ==> well_formed(final(self)@.slots),
    {
        let valid = self.validate_actor_id(id);
        if valid.is_ok() {
            self.actors[id.index].inner = None;
            assert(self.actors@ =~= without(old(self)@.slots, id));
        }
        valid
    }

    /// The first half of a broadcast. Every occupied slot is visited in index
    /// order, its actor is handed the pending events that are meant for it in
    /// the order of the queue, and the actions that the actors answer with are
    /// gathered in the order in which they come. Nothing in the runtime
    /// changes: an actor that asks for a removal is still in its slot when the
    /// actors after it get their events.
    pub fn collect_actions(&self) -> (actions: Vec<CreekAction>)
        ensures
            exists|log: Seq<Delivery>|
                is_delivery_log(self@.slots, self@.events, log) && actions@ == requested(log),
    {
        let mut actions: Vec<CreekAction> = Vec::new();
        let ghost mut log: Seq<Delivery> = Seq::empty();
        proof {
            lemma_log_start(self.actors@, self.events@);
        }
        let mut i: usize = 0;
        while i < self.actors.len()
            invariant
                i <= self.actors.len(),
                is_log_until(self.actors@, self.events@, log, i as int, 0),
                actions@ == requested(log),
            decreases self.actors.len() - i,
        {
            let handle = &self.actors[i];
            let mut j: usize = 0;
            if let Some(actor) = handle.borrow_actor() {
                while j < self.events.len()
                    invariant
                        i < self.actors.len(),
                        j <= self.events.len(),
                        *handle == self.actors@[i as int],
                        handle.inner == Some(*actor),
                        is_log_until(self.actors@, self.events@, log, i as int, j as int),
                        actions@ == requested(log),
                    decreases self.events.len() - j,
                {
                    let event = &self.events[j];
                    if event.concerns(handle.id) {
                        let reply = actor.propogate_global_event(event);
                        let ghost delivery = Delivery {
                            slot: i as int,
                            event: j as int,
                            reply: match reply {
                                Some(list) => Some(*list),
                                None => None,
                            },
                        };
                        proof {
                            lemma_log_push(self.actors@, self.events@, log, delivery);
                            log = log.push(delivery);
                        }
                        if let Some(list) = reply {
                            actions.extend_from_slice(list.as_slice());
                            assert(actions@ =~= requested(log));
                        }
                    } else {
                        proof {
                            lemma_log_skip(self.actors@, self.events@, log, i as int, j as int);
                        }
                    }
                    j = j + 1;
                }
            }
            proof {
                lemma_log_next_slot(self.actors@, self.events@, log, i as int, j as int);
            }
            i = i + 1;
        }
        proof {
            lemma_log_end(self.actors@, self.events@, log, i as int);
        }
        actions
    }

    /// The second half of a broadcast. The actions are taken in order; each
    /// target is checked against the slots as they then are, and where it
    /// still names a slot, that slot is emptied. A target that names no slot
    /// is passed over in silence: an earlier action may have removed the actor
    /// already.
    pub fn apply_actions(&mut self, actions: &Vec<CreekAction>)
        ensures
            final(self)@.slots == carried_out(old(self)@.slots, actions@),
            final(self)@.events == old(self)@.events,
            succeeds(old(self)@.slots, final(self)@.slots),
            well_formed(old(self)@.slots) ==> well_formed(final(self)@.slots),
    {
        let ghost before = self.actors@;
        proof {
            lemma_carried_out_none(before);
            assert(actions@.take(0) =~= Seq::<CreekAction>::empty());
        }
        let mut n: usize = 0;
        while n < actions.len()
            invariant
                n <= actions.len(),
                self.actors@ == carried_out(before, actions@.take(n as int)),
                self.events@ == old(self).events@,
            decreases actions.len() - n,
        {
            let action = actions[n];
            proof {
                lemma_carried_out_push(before, actions@.take(n as int), action);
                assert(actions@.take(n + 1) =~= actions@.take(n as int).push(action));
            }
            if let Ok(handle) = self.get_actor_mut(action.target) {
                match action.action_type {
                    CreekActionType::Destroy => {
                        handle.inner = None;
                    },
                }
            }
            n = n + 1;
        }
        assert(actions@.take(n as int) =~= actions@);
    }

    /// One tick. First every actor gets the pending events that are meant for
    /// it ([`Creek::collect_actions`]); only then are the actions carried out
    /// that the actors asked for ([`Creek::apply_actions`]); at the end the
    /// queue is empty, whatever happened before.
    pub fn propagate_events(&mut self)
        ensures
            final(self)@.events == Seq::<GlobalEvent>::empty(),
            exists|log: Seq<Delivery>|
                is_delivery_log(old(self)@.slots, old(self)@.events, log) && final(self)@.slots
                    == carried_out(old(self)@.slots, requested(log)),
            succeeds(old(self)@.slots, final(self)@.slots),
            well_formed(old(self)@.slots) ==> well_formed(final(self)@.slots),
    {
        let actions_pending = self.collect_actions();
        self.apply_actions(&actions_pending);
        self.events.clear();
    }
}

} // verus!
