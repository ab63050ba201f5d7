//! Event kinds and event payloads.
//!
//! The vocabulary of event kinds is closed, so an event's type identity
//! is a tagged variant rather than an open runtime type token: two
//! events of the same logical kind always carry equal identities, and
//! events of different kinds always carry unequal ones, by construction.

use vstd::prelude::*;

verus! {

/// The identity of an event's concrete shape: one variant per distinct
/// event kind.
#[derive(Clone, Copy, Debug, PartialEq, Eq, Structural)]
pub enum EventTypeId {
    LightAction,
}

/// The verb a light action asks for.
#[derive(Clone, Copy, Debug, PartialEq, Eq, Structural)]
pub enum LightActionType {
    On,
    Off,
}

/// The payload of a `LightAction` event: which entity to act on, and
/// which verb to perform.  Immutable once broadcast.
pub struct LightAction {
    pub action_type: LightActionType,
    pub light_name: String,
}

impl LightAction {
    /// The state the requested verb drives the target entity to.
    pub open spec fn spec_desired_state(&self) -> bool {
        self.action_type == LightActionType::On
    }
}

/// A type-erased event: a tagged variant over the closed kind vocabulary.
pub enum Event {
    Light(LightAction),
}

impl Event {
    /// The identity of this event's kind.
    pub open spec fn spec_type_id(&self) -> EventTypeId {
        match self {
            Event::Light(_) => EventTypeId::LightAction,
        }
    }

    /// Computes the event's type identity.
    pub fn type_id(&self) -> (t: EventTypeId)
        ensures
            t == self.spec_type_id(),
    {
        match self {
            Event::Light(_) => EventTypeId::LightAction,
        }
    }
}

} // verus!
