//! Network interface configuration records.
use vstd::prelude::*;

verus! {

/// How an interface obtains its address.
#[derive(Clone, Copy, Debug, Eq, PartialEq, Structural)]
pub enum CloudNetworkConfigMethod {
    /// Configured manually.
    Manual,
    /// Configured by DHCP.
    Dhcp,
    /// Static assignment.
    Static,
    /// Loopback device.
    Loopback,
}

/// Kind of a network interface.
#[derive(Clone, Copy, Debug, Eq, PartialEq, Structural)]
pub enum CloudNetworkInterfaceType {
    /// Loopback device.
    Loopback,
    /// Physical ethernet device.
    Eth,
    /// Virtual interface provided by the platform.
    Virtual,
    /// Unknown device kind.
    Unknown,
}

/// Network interface configuration.
pub struct CloudInterface {
    /// Interface name.
    pub name: String,
    /// Interface type.
    pub interface_type: CloudNetworkInterfaceType,
    pub method: Option<CloudNetworkConfigMethod>,
    /// IPv4 address with prefix.
    pub cidr: Option<String>,
    /// IPv6 address with prefix.
    pub cidr6: Option<String>,
    /// IPv4 gateway.
    pub gateway: Option<String>,
    /// IPv6 gateway.
    pub gateway6: Option<String>,
    /// Platform subnet id.
    pub subnet_id: Option<String>,
    pub tags: Vec<String>,
    pub comments: Option<String>,
}

impl CloudInterface {
    /// A fresh interface record with only its name set.
    pub fn new(name: String) -> (r: CloudInterface)
        ensures
            r.name == name,
            r.interface_type == CloudNetworkInterfaceType::Unknown,
            r.method is None,
            r.cidr is None,
            r.cidr6 is None,
            r.gateway is None,
            r.gateway6 is None,
            r.subnet_id is None,
            r.tags@ == Seq::<String>::empty(),
            r.comments is None,
    {
        CloudInterface {
            name,
            interface_type: CloudNetworkInterfaceType::Unknown,
            method: None,
            cidr: None,
            cidr6: None,
            gateway: None,
            gateway6: None,
            subnet_id: None,
            tags: Vec::new(),
            comments: None,
        }
    }
}

} // verus!
