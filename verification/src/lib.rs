//! Configuration, diagnostics and service logic of the Clash Verge desktop client.
pub mod yaml;
pub mod merge;
pub mod text;
pub mod tun;
pub mod enhance;
pub mod help;
pub mod diagnostic;
pub mod service;
pub mod service_host;
pub mod logger;
pub mod debug_recorder;
pub mod feat;
pub mod core_manager;
