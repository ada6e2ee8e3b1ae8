//! Build pipeline core for turning a user Dockerfile into an attestable
//! enclave image: a streaming Dockerfile decoder, a directive model with a
//! faithful renderer, a deterministic transform that injects the enclave
//! runtime scaffolding, configuration validation, and the decision logic of
//! the build, deploy, describe and delete flows.

pub mod api;
pub mod builder;
pub mod config;
pub mod decode;
pub mod delete;
pub mod deploy;
pub mod describe;
pub mod directive;
pub mod laws;
pub mod parse;
pub mod render;
pub mod text;
pub mod transform;
