//! Current-state projection of a name registry from transaction events: events of the
//! registry's contract are decoded from their JSON payloads and folded, in order, into
//! one record per name.
pub mod events;
pub mod guarantees;
pub mod json;
pub mod lookup;
