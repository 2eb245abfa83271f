//! Reconciliation of desired port mappings against a NAT gateway.
//!
//! The library decides; its caller talks to the network. A [`Reconciler`]
//! names the next gateway operation, the caller performs it and reports the
//! reply as an [`Event`], until every mapping request has its
//! [`OperationOutcome`]. [`Cli`] decides in the same way when the daemon
//! applies its mappings, waits, withdraws them and stops.

pub mod address;
pub mod cli;
pub mod config;
pub mod laws;
pub mod reconciler;
pub mod world;

pub use address::{candidate_addresses, Interface, Ipv4Cidr};
pub use cli::{Cli, CliInputFormat, Command, Pass, Wake};
pub use config::{PortMappingProtocol, UpnpConfig};
pub use reconciler::{Action, Event, FailureKind, MappingError, Mode, OperationOutcome, Reconciler};
