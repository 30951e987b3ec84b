//! A local mirror of a remote mail store, kept by an external mail agent.
//!
//! The library holds the logic of the mirror: the cache layout, the agent's
//! argument vectors and retry rule, the decisions of a sync run, the command
//! line routing, and the date ordering of cached envelopes. Every I/O step is
//! left to the caller, which performs it and hands the outcome back.

pub mod agent;
pub mod cli;
pub mod layout;
pub mod model;
pub mod ordering;
pub mod query;
pub mod sync;
