//! Reaction-event reconciliation engine for a starboard.
//!
//! The library keeps, per configured watch channel (a board), a derived
//! copy of any message that has accumulated enough qualifying reactions.
//! Given one raw reaction event it screens the event, matches the boards
//! that apply, counts qualifying reactors, decides the create / update /
//! delete action against the derived-message store, and keeps the
//! persisted mapping from (board, original message) to (derived message)
//! consistent with what was actually produced.
//!
//! All platform and database I/O stays outside: callers hand the engine
//! plain values (the fetched message, the reactor list, the lookup and
//! fetch outcomes) and perform the transport calls the engine decides on.

pub mod board;
pub mod config;
pub mod engine;
pub mod event;
pub mod ids;
pub mod laws;
pub mod reactor;
pub mod store;
pub mod text;
pub mod view;
