//! File sync across devices, as a verified library.

pub mod binary_protocol;
pub mod codec;
pub mod commands;
pub mod config;
pub mod events;
pub mod host;
pub mod host_bridge;
pub mod host_fs;
pub mod http;
pub mod json;
pub mod key_map;
pub mod laws;
pub mod manifest;
pub mod protocol;
pub mod server_api;
pub mod state;
pub mod status;
pub mod sync_engine;
pub mod sync_manifest;
pub mod text;
