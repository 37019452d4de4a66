//! On-chain address lookup table registry: lifecycle state machine,
//! binary account codec, and instruction handlers.

pub mod accounts;
pub mod addr;
pub mod codec;
pub mod derivation;
pub mod error;
pub mod instruction;
pub mod laws;
pub mod processor;
pub mod state;
