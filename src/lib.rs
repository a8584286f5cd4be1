//! A registry of advertisement records with impression counters, written as
//! pure transitions over a single state value.

pub mod contract;
pub mod laws;
pub mod msg;
pub mod state;
