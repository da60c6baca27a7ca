//! Client for a F1r3fly node: signed deploys, and the node's replies made plain.
//!
//! The library decides and computes; it reads no socket and no clock. Every request is built
//! here from plain values, every reply comes back as a value of one of the types below, and the
//! loops that wait on a node are state machines that a caller drives.

pub mod api;
pub mod blocks;
pub mod crypto;
pub mod data;
pub mod deploy;
pub mod error;
pub mod finality;
pub mod full_deploy;
pub mod hexadecimal;
pub mod http;
pub mod info;
pub mod json;
pub mod par;
pub mod service;
pub mod text;
pub mod wire;
