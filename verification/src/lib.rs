//! Passive packet analysis: protocol detection, per-flow sequence tracking
//! and gap reporting for MACsec, IPsec ESP and plain TCP/UDP traffic.

pub mod analysis;
pub mod api;
pub mod capture;
pub mod config;
pub mod db;
pub mod error;
pub mod flow_map;
pub mod flow_text;
pub mod generator;
pub mod ip_text;
pub mod message;
pub mod protocol;
pub mod text;
pub mod types;
pub mod wire;
