//! Device-identity spoofing core: merges layered configuration into a
//! per-app policy, selects one of three spoofing strategies, models the
//! companion protocol that rewrites and restores global system
//! properties, and drives the per-process specialization state machine.

pub mod companion;
pub mod config;
pub mod hooks;
pub mod identity;
pub mod logging;
pub mod mode;
pub mod specialize;
pub mod state;
pub mod strmap;
pub mod wire;
