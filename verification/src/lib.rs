//! Control and bookkeeping core of a streaming hi-fi audio engine.
//!
//! Everything here works on integers and on sample words (the IEEE-754 bit
//! pattern of a 64-bit sample), so that frame accounting, buffer handoff,
//! format negotiation order and the player state machine can be proved.

pub mod cache;
pub mod config;
pub mod decoder;
pub mod pipeline;
pub mod player;
pub mod processor;
pub mod server;
pub mod wasapi_output;
