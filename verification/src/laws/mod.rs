//! What the operations guarantee, stated of their inputs and results.
//!
//! Each law speaks of what a call of an operation returns or changes, by the operation's contract, in
//! terms that do not depend on how the contract puts it.
pub mod addresses;
pub mod arguments;
pub mod calls;
pub mod commands;
pub mod delivery;
pub mod display;
pub mod payloads;
pub mod pools;
pub mod schedules;
pub mod session;
pub mod settings;
pub mod topics;
pub mod writes;
