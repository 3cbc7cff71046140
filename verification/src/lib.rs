//! Verified core of the quant trading engine: the order lifecycle state
//! machine, the orders-per-second throttle, the executor's decision on each
//! sized signal, the freshness check that gates signal fusion, the shared
//! event vocabulary and the bounded rolling windows that the analysis
//! engines keep.

pub mod clock;
pub mod events;
pub mod executor;
pub mod freshness;
pub mod ids;
pub mod state_machine;
pub mod subjects;
pub mod throttle;
pub mod window;
