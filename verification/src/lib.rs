//! An actor runtime for games: a container of actors that are addressed by
//! generational identifiers, receive the events of each tick, and may ask to
//! be removed once the tick's broadcast is over.
//!
//! - [`actors`]: identifiers, the cells that hold actors, and the traits that
//!   actors implement.
//! - [`events`]: events, actions and errors.
//! - [`container`]: the runtime itself, [`Creek`].
//! - [`arena`]: the slots of a runtime as a sequence, and what adding and
//!   removing actors does to it.
//! - [`delivery`]: a broadcast as a record of deliveries, and what carrying
//!   out the actions that come back does to the slots.
//! - [`laws`]: what holds of every runtime, proved from the above.

pub mod actors;
pub mod arena;
pub mod container;
pub mod delivery;
pub mod events;
pub mod laws;

pub use crate::container::{Creek, CreekView};
pub use crate::events::{CreekAction, CreekActionType, CreekError, GlobalEvent, GlobalEventType};
