//! Connectivity: NAT traversal wire formats and strategy selection.
//!
//! The port mapping protocols (PCP, RFC 6887 and NAT-PMP, RFC 6886) are
//! byte formats: requests are built and responses are checked here. The
//! sockets, HTTP probes and UPnP calls that carry them live with the
//! application, which hands their outcomes back to the decisions here.

pub mod types;
pub mod ip;
pub mod pcp;
pub mod natpmp;
pub mod cgnat;
pub mod ipv6;
pub mod health_check;
pub mod orchestrator;
pub mod upnp;
pub mod gateway;
