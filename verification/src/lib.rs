//! Core of a personal home-hub node: credentials and session tokens, the
//! storage and messaging store with its access rules, the request decisions
//! of the HTTP surface, and the supervision of the outbound tunnel process.

pub mod auth;
pub mod clock;
pub mod commands;
pub mod docker_manager;
pub mod hub_api;
pub mod hub_service;
pub mod json;
pub mod ordering;
pub mod random;
pub mod relocation;
pub mod storage_manager;
pub mod store_invariants;
pub mod store_laws;
pub mod system_monitor;
pub mod tailscale_manager;
pub mod text;
pub mod tunnel_manager;
