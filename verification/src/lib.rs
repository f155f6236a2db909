//! Client-side protocol logic of the Vireon pub/sub runtime.
pub mod buf;
pub mod channel;
pub mod cli;
pub mod client;
pub mod command;
pub mod config;
pub mod error;
pub mod frame;
pub mod laws;
pub mod message;
pub mod mux;
pub mod order;
pub mod output;
pub mod parse;
pub mod pool;
pub mod reliable;
pub mod replay;
pub mod routing;
pub mod run;
pub mod stream;
pub mod task;
pub mod text;
pub mod time;
pub mod topic;
pub mod transport;
pub mod wire;
