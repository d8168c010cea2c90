//! Interface address values: link-layer (MAC) and IPv4 addresses.

use vstd::prelude::*;

verus! {

/// A six-byte link-layer (MAC) address.
#[derive(Clone, Copy, PartialEq, Eq, Structural, Debug)]
pub struct MacAddress {
    pub b0: u8,
    pub b1: u8,
    pub b2: u8,
    pub b3: u8,
    pub b4: u8,
    pub b5: u8,
}

/// The all-zero MAC address, used until the address lookup supplies one.
pub open spec fn unspecified_mac() -> MacAddress {
    MacAddress { b0: 0, b1: 0, b2: 0, b3: 0, b4: 0, b5: 0 }
}

impl MacAddress {
    pub fn new(b0: u8, b1: u8, b2: u8, b3: u8, b4: u8, b5: u8) -> (r: Self)
        ensures
            r == (MacAddress { b0, b1, b2, b3, b4, b5 }),
    {
        MacAddress { b0, b1, b2, b3, b4, b5 }
    }

    pub fn unspecified() -> (r: Self)
        ensures
            r == unspecified_mac(),
    {
        MacAddress { b0: 0, b1: 0, b2: 0, b3: 0, b4: 0, b5: 0 }
    }
}

/// A four-octet IPv4 address (also used for netmasks).
#[derive(Clone, Copy, PartialEq, Eq, Structural, Debug)]
pub struct Ipv4Address {
    pub o0: u8,
    pub o1: u8,
    pub o2: u8,
    pub o3: u8,
}

/// The unspecified IPv4 address 0.0.0.0, used until the lookup supplies one.
pub open spec fn unspecified_ipv4() -> Ipv4Address {
    Ipv4Address { o0: 0, o1: 0, o2: 0, o3: 0 }
}

impl Ipv4Address {
    pub fn new(o0: u8, o1: u8, o2: u8, o3: u8) -> (r: Self)
        ensures
            r == (Ipv4Address { o0, o1, o2, o3 }),
    {
        Ipv4Address { o0, o1, o2, o3 }
    }

    pub fn unspecified() -> (r: Self)
        ensures
            r == unspecified_ipv4(),
    {
        Ipv4Address { o0: 0, o1: 0, o2: 0, o3: 0 }
    }
}

/// One tagged address value yielded by the address lookup for an interface.
#[derive(Clone, Copy, PartialEq, Eq, Structural, Debug)]
pub enum IfAddress {
    /// A link-layer address.
    Mac(MacAddress),
    /// An IPv4 address together with its netmask.
    Ipv4(Ipv4Address, Ipv4Address),
}

} // verus!
