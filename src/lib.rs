//! Event-triggered command dispatch: listener rules that bind event-name
//! patterns to commands, and the bounded, non-blocking admission of the
//! tasks that run those commands.

pub mod text;
pub mod command;
pub mod dispatch;
pub mod listener;
pub mod event;
pub mod dispatcher;
