//! Flow tracking and the analysis pipeline built on it.

pub mod analyzer;
pub mod flow;
pub mod flow_laws;
pub mod pipeline;

pub use analyzer::PacketAnalyzer;
pub use flow::FlowTracker;
