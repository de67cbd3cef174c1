//! Events that travel to actors, the actions actors ask for in return, and the
//! errors of the runtime.

use crate::actors::{ActorID, CreekEvent};
use vstd::prelude::*;

verus! {

/// Why an operation on an actor could not be carried out.
#[derive(Debug, Copy, Clone)]
pub enum CreekError {
    /// The actor was asked for an action but does not know its own identifier.
    ActorDoesNotStoreId,
    /// The identifier's index lies beyond the last slot.
    ActorDoesNotExistAtIndex,
    /// The slot exists, but it has moved on to another generation.
    ActorIdInvalidated,
}

/// The kinds of event the runtime itself sends.
#[derive(Debug, Clone)]
pub enum GlobalEventType {
    Init,
    /// A time step. The payload is the elapsed time in seconds, carried as the
    /// bit pattern of a single-precision number (`f32::to_bits`); the runtime
    /// hands it on untouched.
    Update(u32),
    ActorAdded(ActorID),
    ActorRemoved(ActorID),
    AddedToCreek,
    RemovedFromCreek,
}

/// An event together with the actor it is meant for; without a target it goes
/// to every actor.
#[derive(Debug, Clone)]
pub struct GlobalEvent {
    pub event_type: GlobalEventType,
    pub target: Option<ActorID>,
}

impl CreekEvent for GlobalEvent {

}

impl GlobalEvent {
    /// An event for everyone.
    pub fn new(event_type: GlobalEventType) -> (event: Self)
        ensures
            event == (GlobalEvent { event_type, target: None }),
    {
        GlobalEvent { event_type, target: None }
    }

    /// The same event, addressed to `target` alone.
    pub fn with_target(self, target: ActorID) -> (event: Self)
        ensures
            event == (GlobalEvent { event_type: self.event_type, target: Some(target) }),
    {
        GlobalEvent { event_type: self.event_type, target: Some(target) }
    }

    /// Whether the event is meant for the actor known as `id`: an event without
    /// a target is meant for everyone, one with a target for that actor only.
    pub open spec fn is_for(self, id: ActorID) -> bool {
        match self.target {
            None => true,
            Some(target) => target == id,
        }
    }

    /// Decides [`GlobalEvent::is_for`].
    pub fn concerns(&self, id: ActorID) -> (yes: bool)
        ensures
            yes == self.is_for(id),
    {
        match self.target {
            None => true,
            Some(target) => target == id,
        }
    }
}

/// What an actor may ask the runtime to do.
#[derive(Debug, Clone, Copy)]
pub enum CreekActionType {
    /// Remove the target actor once the current broadcast is over.
    Destroy,
}

/// A request of an actor to the runtime, carried out after the broadcast in
/// which it was made.
#[derive(Debug, Clone, Copy)]
pub struct CreekAction {
    pub action_type: CreekActionType,
    pub target: ActorID,
}

impl CreekAction {
    /// The action an actor may request for itself, given the identifier it
    /// remembers: none without an identifier.
    pub open spec fn requested_by(action_type: CreekActionType, sender: Option<ActorID>) -> Result<
        CreekAction,
        CreekError,
    > {
        match sender {
            Some(id) => Ok(CreekAction { action_type, target: id }),
            None => Err(CreekError::ActorDoesNotStoreId),
        }
    }

    /// Builds the action of kind `action_type` that an actor requests for
    /// itself. `sender` is the identifier the actor has stored; an actor that
    /// has stored none cannot be the target of its own request, and gets
    /// `ActorDoesNotStoreId`.
    pub fn from_sender(action_type: CreekActionType, sender: Option<ActorID>) -> (action: Result<
        CreekAction,
        CreekError,
    >)
        ensures
            action == Self::requested_by(action_type, sender),
    {
        match sender {
            Some(id) => Ok(CreekAction { action_type, target: id }),
            None => Err(CreekError::ActorDoesNotStoreId),
        }
    }
}

} // verus!
