//! The desired state: one mapping request per port.

use vstd::prelude::*;

use crate::address::Ipv4Cidr;

verus! {

/// The transport protocol of a port mapping.
#[derive(Clone, Copy, Debug, PartialEq, Eq, Hash, Structural)]
pub enum PortMappingProtocol {
    TCP,
    UDP,
}

/// One desired port mapping.
///
/// `address` is absent (try every interface), a single host (`/32`, used as
/// given) or a range (try the interfaces inside it). The pair of `protocol`
/// and `port` names the slot on the gateway; `duration` and `comment` are
/// stored with the mapping and play no part in finding it.
#[derive(Clone, Debug)]
pub struct UpnpConfig {
    pub address: Option<Ipv4Cidr>,
    pub port: u16,
    pub protocol: PortMappingProtocol,
    pub duration: u32,
    pub comment: String,
}

impl UpnpConfig {
    pub open spec fn wf(self) -> bool {
        self.address matches Some(c) ==> c.wf()
    }

    /// The request names a single host: no interface is looked up.
    pub open spec fn is_exact(self) -> bool {
        self.address matches Some(c) && c.is_host_spec()
    }
}

} // verus!
