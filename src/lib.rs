//! Build orchestration for a multi-canister project: configuration model,
//! dependency resolution, per-type builders, environment injection and the
//! post-processing of compiled modules.
pub mod builders;
pub mod config;
pub mod env;
pub mod error;
pub mod graph;
pub mod pem;
pub mod pool;
pub mod principal;
pub mod subnet;
pub mod wasm;
