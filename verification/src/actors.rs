//! Actors, their identifiers and the handles through which they are reached.

use crate::events::{CreekAction, CreekActionType, CreekError, GlobalEvent};
use vstd::prelude::*;

verus! {

/// Marks a type as an event that actors can receive.
pub trait CreekEvent {

}

/// What a single actor offers: it takes events of its own kind and of the
/// runtime's kind, remembers the actions it wants carried out, and may remember
/// the identifier it goes by.
pub trait Actor {
    type Event;

    fn receive_event(&mut self, event: Self::Event);

    fn recieve_global_event(&mut self, event: GlobalEvent) {
    }

    fn added_to_creek(&mut self) {
    }

    fn removed_from_creek(&mut self) {
    }

    /// The actions this actor wants carried out.
    fn get_creek_actions(&self) -> &Vec<CreekAction>;

    /// Tells the actor its identifier. An actor that keeps none answers `Err`
    /// and stays as it was; that is what an actor does unless it says
    /// otherwise. An actor that answers `Ok` has stored `id`: asked right
    /// afterwards, [`Actor::get_id`] answers with it.
    fn set_id(&mut self, id: ActorID) -> (stored: Result<(), ()>)
        ensures
            stored is Err ==> &*final(self) == &*old(self),
            stored is Ok ==> forall|answer: Option<ActorID>|
                call_ensures(Self::get_id, (&*final(self),), answer) ==> answer == Some(id),
    {
        Err(())
    }

    /// The identifier the actor has stored, if it stores one.
    fn get_id(&self) -> Option<ActorID>;

    /// An action of kind `action_type` aimed at the actor itself. Whatever
    /// [`Actor::get_id`] answers decides the outcome as
    /// [`CreekAction::requested_by`] says: the action with that identifier as
    /// its target, or `ActorDoesNotStoreId` where there is none.
    fn creek_action(&self, action_type: CreekActionType) -> (action: Result<CreekAction, CreekError>)
        ensures
            exists|stored: Option<ActorID>|
                call_ensures(Self::get_id, (self,), stored) && action == CreekAction::requested_by(
                    action_type,
                    stored,
                ),
    {
        let stored = self.get_id();
        CreekAction::from_sender(action_type, stored)
    }
}

/// A family of actors that can live in one runtime. Its one duty is to take a
/// global event and answer with the actions it wants carried out, if any.
pub trait ActorTypes {
    fn propogate_global_event(&self, event: &GlobalEvent) -> Option<&Vec<CreekAction>>;
}

/// Names one occupant of one slot: `index` is the slot, `gen` tells successive
/// occupants of that slot apart.
#[derive(Copy, Clone, Debug, PartialEq, Eq, Structural)]
pub struct ActorID {
    pub index: usize,
    pub gen: usize,
}

impl Default for ActorID {
    fn default() -> (id: ActorID)
        ensures
            id == (ActorID { index: 0, gen: 0 }),
    {
        ActorID { index: 0, gen: 0 }
    }
}

impl ActorID {
    /// The identifier that names no actor. Its generation is one that no slot
    /// ever reaches.
    pub open spec fn nil() -> ActorID {
        ActorID { index: 0, gen: usize::MAX }
    }

    /// The identifier that names no actor.
    pub fn empty() -> (id: ActorID)
        ensures
            id == ActorID::nil(),
    {
        ActorID { index: 0, gen: usize::MAX }
    }
}

/// One cell of the runtime: the identifier of its current occupant and the
/// occupant itself, or nothing once the occupant is gone. Whoever holds the
/// handle mutably is the only one who can reach the actor, so two parties never
/// edit one actor at once.
#[derive(Clone, Debug)]
pub struct ActorHandle<T> {
    pub id: ActorID,
    pub inner: Option<T>,
}

impl<T> Default for ActorHandle<T> {
    fn default() -> (handle: Self)
        ensures
            handle.id == ActorID::nil(),
            handle.inner is None,
    {
        ActorHandle { id: ActorID::empty(), inner: None }
    }
}

impl<T> ActorHandle<T> {
    /// A cell that holds `actor`. Its identifier is a placeholder until a
    /// runtime takes the actor in.
    pub fn new(actor: T) -> (handle: Self)
        ensures
            handle.id == (ActorID { index: 0, gen: 0 }),
            handle.inner == Some(actor),
    {
        ActorHandle { id: ActorID { index: 0, gen: 0 }, inner: Some(actor) }
    }

    /// A cell that holds nothing and names no actor.
    pub fn empty() -> (handle: Self)
        ensures
            handle.id == ActorID::nil(),
            handle.inner is None,
    {
        ActorHandle { id: ActorID::empty(), inner: None }
    }

    /// The same cell with its occupant gone. The identifier stays.
    pub open spec fn vacated(self) -> Self {
        ActorHandle { id: self.id, inner: None }
    }

    /// Read access to the actor, if the cell holds one.
    pub fn borrow_actor(&self) -> (actor: Option<&T>)
        ensures
            match actor {
                Some(a) => self.inner == Some(*a),
                None => self.inner is None,
            },
    {
        self.inner.as_ref()
    }

    /// Write access to the actor, if the cell holds one. What the caller
    /// leaves behind the reference is what the cell holds afterwards; an empty
    /// cell stays empty, and the identifier is never touched.
    pub fn borrow_actor_mut(&mut self) -> (actor: Option<&mut T>)
        ensures
            final(self).id == old(self).id,
            match actor {
                Some(a) => old(self).inner == Some(*a) && final(self).inner == Some(*final(a)),
                None => old(self).inner is None && final(self).inner is None,
            },
    {
        self.inner.as_mut()
    }

    /// Runs `closure` on the actor, if the cell holds one; on an empty cell
    /// nothing happens and `closure` is not called.
    pub fn edit_actor<F>(&mut self, closure: F) where F: FnOnce(&mut T) -> ()
        requires
            old(self).inner is Some ==> forall|a: &mut T|
                *a == old(self).inner->Some_0 ==> call_requires(closure, (a,)),
        ensures
            final(self).id == old(self).id,
            old(self).inner is None ==> final(self).inner is None,
            old(self).inner is Some ==> final(self).inner is Some && exists|a: &mut T|
                *a == old(self).inner->Some_0 && *final(a) == final(self).inner->Some_0
                    && call_ensures(closure, (a,), ()),
    {
        if let Some(actor) = self.borrow_actor_mut() {
            closure(actor);
        }
    }
}

} // verus!
