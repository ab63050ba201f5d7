//! A typed event mediator with command-based side effects and
//! observer-based change notification.
//!
//! Event kinds form a closed vocabulary ([`event::EventTypeId`]); the
//! mediator keeps an ordered bucket of handlers per kind and dispatches
//! a broadcast event to every handler registered under the event's kind,
//! in registration order.  Handlers resolve a target entity in an arena
//! they own, build a command bound to that entity, and execute it; the
//! entity mutates its state and synchronously notifies every attached
//! observer.  Because every entity lives in exactly one arena and is
//! mutated only through a scoped exclusive borrow, overlapping mutable
//! acquisitions of one entity are impossible by construction.

pub mod command;
pub mod event;
pub mod handler;
pub mod light;
pub mod mediator;
pub mod observer;
