//! Search for Ed25519 keys whose Tor v3 onion address matches chosen
//! patterns, and the data that a Tor hidden-service directory holds.

pub mod backend;
pub mod base32;
pub mod engine;
pub mod error;
pub mod gpu;
pub mod keyfile;
pub mod keys;
pub mod onion;
pub mod pattern;
pub mod targets;
pub mod text;
pub mod tool;

pub use crate::backend::{
    select_backend, select_backend_with_config, Backend, BackendInfo, BackendMode, CpuBackend, CudaBackend,
    DeviceInfo, ExternalCudaBackend, HybridBackend,
};
pub use crate::engine::{Candidate, FoundKey};
pub use crate::error::GeneratorError;
pub use crate::onion::pubkey_to_onion;
pub use crate::text::format_speed;
