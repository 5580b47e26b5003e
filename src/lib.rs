//! Local-network device discovery and resilient Pi-hole statistics retrieval.
mod text;
pub mod arp;
pub mod error;
pub mod stats;
pub mod address;
pub mod fetch;
