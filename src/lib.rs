//! Backend selection for a router that prefers a mix-network relay and falls
//! back to an onion-routing exit.
//!
//! The library holds the configuration flags, the health catalog that a
//! router observes, and the deterministic policy that picks one backend for a
//! target (or reports that none is available).
pub mod config;
pub mod name_order;
pub mod router;
