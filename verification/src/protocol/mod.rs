//! Protocol parsers and the registry that dispatches among them.

pub mod generic_l3;
pub mod ipsec;
pub mod ipv4;
pub mod macsec;
pub mod parser;
pub mod registry;
pub mod registry_laws;

pub use generic_l3::GenericL3Parser;
pub use ipsec::IPsecParser;
pub use macsec::MACsecParser;
pub use parser::SequenceParser;
pub use registry::{ProtocolRegistry, RegistryStats};
