//! Transport addresses as the attributes of a STUN message carry them.

use vstd::prelude::*;

verus! {

/// An IP address, by its bytes in network order.
#[derive(Clone, Copy, Debug, Eq, Hash, PartialEq)]
pub enum IpAddress {
    V4([u8; 4]),
    V6([u8; 16]),
}

/// An IP address and a port.
#[derive(Clone, Copy, Debug, Eq, Hash, PartialEq)]
pub struct SocketAddress {
    pub ip: IpAddress,
    pub port: u16,
}

impl IpAddress {
    /// The bytes of the address in network order: four or sixteen.
    pub open spec fn octets(self) -> Seq<u8> {
        match self {
            IpAddress::V4(octets) => octets@,
            IpAddress::V6(octets) => octets@,
        }
    }

    /// Whether the two addresses are the same.
    pub fn same_as(&self, other: &IpAddress) -> (same: bool)
        ensures
            same == (*self == *other),
    {
        match (self, other) {
            (IpAddress::V4(a), IpAddress::V4(b)) => {
                let same = a[0] == b[0] && a[1] == b[1] && a[2] == b[2] && a[3] == b[3];
                assert(same == (a =~= b));
                same
            },
            (IpAddress::V6(a), IpAddress::V6(b)) => {
                let mut at: usize = 0;
                while at < 16
                    invariant
                        at <= 16,
                        *self == IpAddress::V6(*a),
                        *other == IpAddress::V6(*b),
                        forall|i: int| 0 <= i < at ==> a[i] == b[i],
                    decreases 16 - at,
                {
                    if a[at] != b[at] {
                        return false;
                    }
                    at = at + 1;
                }
                assert(a =~= b);
                true
            },
            _ => false,
        }
    }
}

impl SocketAddress {
    /// Whether the two addresses are the same, IP address and port.
    pub fn same_as(&self, other: &SocketAddress) -> (same: bool)
        ensures
            same == (*self == *other),
    {
        self.port == other.port && self.ip.same_as(&other.ip)
    }
}

} // verus!
