//! The configuration of a mesh-network node: reading it from a document,
//! resolving its secrets, and deriving the node's identity.

use vstd::prelude::*;

pub mod address;
pub mod auth;
pub mod config;
pub mod document;
pub mod error;
pub mod interface;
pub mod ipv4;
pub mod ipv6;
pub mod laws;
pub mod network;
pub mod number;
pub mod outside;
pub mod router;
pub mod secret;
pub mod server;
pub mod text;

pub use address::IpAddress;
pub use address::SocketAddress;
pub use auth::AuthConfig;
pub use auth::CertificateAuthorityConfig;
pub use auth::SharedSecretConfig;
pub use config::Config;
pub use config::SecretFiles;
pub use document::Lookup;
pub use document::Value;
pub use error::ConfigError;
pub use error::Field;
pub use interface::InterfaceConfig;
pub use interface::InterfaceConfigMode;
pub use network::DnsNetworkConfig;
pub use network::NetworkConfig;
pub use network::PeersNetworkConfig;
pub use router::PythonRouterConfig;
pub use router::RouterChoice;
pub use router::RouterConfig;
pub use secret::FileOrValue;
pub use server::ServerConfig;
