//! The slot arena as a mathematical object: a sequence of cells, each with the
//! generation of its current occupant. Identifiers are looked up against it,
//! new actors land in it, and occupants leave it without the sequence ever
//! getting shorter.

use crate::actors::{ActorHandle, ActorID};
use crate::events::CreekError;
use vstd::prelude::*;

verus! {

/// Every cell carries its own position, and no cell has reached the generation
/// that is set aside for [`ActorID::nil`].
pub open spec fn well_formed<T>(slots: Seq<ActorHandle<T>>) -> bool {
    forall|i: int|
        0 <= i < slots.len() ==> (#[trigger] slots[i]).id.index == i && slots[i].id.gen
            < usize::MAX
}

/// What looking up `id` among `slots` finds: no such slot, a slot that has
/// moved on to another generation, or the slot that `id` names.
pub open spec fn lookup<T>(slots: Seq<ActorHandle<T>>, id: ActorID) -> Result<(), CreekError> {
    if id.index >= slots.len() {
        Err(CreekError::ActorDoesNotExistAtIndex)
    } else if slots[id.index as int].id.gen != id.gen {
        Err(CreekError::ActorIdInvalidated)
    } else {
        Ok(())
    }
}

/// `n` is where the next actor lands: the lowest empty slot, or the end of the
/// sequence where every slot is taken.
pub open spec fn is_landing<T>(slots: Seq<ActorHandle<T>>, n: int) -> bool {
    &&& 0 <= n <= slots.len()
    &&& forall|j: int| 0 <= j < n ==> (#[trigger] slots[j]).inner is Some
    &&& n < slots.len() ==> slots[n].inner is None
}

/// The generation an actor gets that lands at `n`: one more than the slot had
/// before, or zero in a fresh slot.
pub open spec fn landing_generation<T>(slots: Seq<ActorHandle<T>>, n: int) -> int {
    if 0 <= n < slots.len() {
        slots[n].id.gen + 1
    } else {
        0
    }
}

/// The identifier an actor gets that lands at `n`.
pub open spec fn landing_id<T>(slots: Seq<ActorHandle<T>>, n: int) -> ActorID {
    ActorID { index: n as usize, gen: landing_generation(slots, n) as usize }
}

/// An actor can land at `n` without its generation running into the one set
/// aside for [`ActorID::nil`].
pub open spec fn landing_is_free<T>(slots: Seq<ActorHandle<T>>, n: int) -> bool {
    landing_generation(slots, n) < usize::MAX
}

/// The arena once `cell` stands at `n`: in place of the slot that was there,
/// or as a new last slot.
pub open spec fn placed<T>(slots: Seq<ActorHandle<T>>, n: int, cell: ActorHandle<T>) -> Seq<
    ActorHandle<T>,
> {
    if 0 <= n < slots.len() {
        slots.update(n, cell)
    } else {
        slots.push(cell)
    }
}

/// The arena once the actor known as `id` is gone: its slot is emptied and
/// keeps its generation. An identifier that names no slot changes nothing.
pub open spec fn without<T>(slots: Seq<ActorHandle<T>>, id: ActorID) -> Seq<ActorHandle<T>> {
    if lookup(slots, id) is Ok {
        slots.update(id.index as int, slots[id.index as int].vacated())
    } else {
        slots
    }
}

/// `later` can come after `earlier` in the life of one arena: no slot was
/// given up, and no slot went back to a generation it had left.
pub open spec fn succeeds<T>(earlier: Seq<ActorHandle<T>>, later: Seq<ActorHandle<T>>) -> bool {
    &&& earlier.len() <= later.len()
    &&& forall|i: int|
        0 <= i < earlier.len() ==> (#[trigger] earlier[i]).id.gen <= later[i].id.gen
}

} // verus!
