//! Events and the handlers that react to them.
use vstd::prelude::*;

verus! {

/// The standard library's type identifier, carried through unchanged.
#[verifier::external_type_specification]
#[verifier::external_body]
pub struct ExTypeId(std::any::TypeId);

/// Something that happened, handed to the handlers registered for its type.
pub trait Event {
    /// Whether a handler may cancel it.
    fn is_cancellable(&self) -> bool;
}

/// Reacts to the events of one type.
pub trait EventHandler {
    /// The type of the events this handler takes.
    fn event_type(&self) -> std::any::TypeId;

    /// Reacts to `event`, which is of the type `event_type` names.
    fn on_event(&mut self, event: &mut dyn Event);
}

} // verus!
