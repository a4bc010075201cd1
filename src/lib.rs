//! A local mirror of a multi-network chat session kept in step with the
//! events that a bouncer pushes: the event queue, the reconciler that applies
//! events to the model, channel navigation with lazy loading, and the text
//! the interface shows.

pub mod types;
pub mod events;
pub mod state;
pub mod input;
pub mod laws;
pub mod tui;
pub mod display;
