//! Execution layer — order lifecycle state, slicing and reconciliation.

pub mod state_machine;
pub mod vwap;
pub mod gateway;
