//! Reconciliation engine for a single conversation's timeline: turns a stream
//! of locally-sent and remotely-synced chat events into one ordered,
//! de-duplicated list of display items, while keeping derived aggregate state
//! (reactions, edits, redactions, read-marker position) consistent as events
//! arrive out of order, get echoed back, or get retracted.

pub mod event;
pub mod handler;
pub mod item;
pub mod laws;
pub mod reactions;
pub mod store;
