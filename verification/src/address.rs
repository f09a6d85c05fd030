//! Addresses of the network.

use vstd::prelude::*;

verus! {

/// An address, as the number that it stands for.
#[derive(Clone, Copy, Debug, PartialEq, Eq, Structural)]
pub enum IpAddress {
    V4(u32),
    V6(u128),
}

/// An address and a port.
#[derive(Clone, Copy, Debug, PartialEq, Eq, Structural)]
pub struct SocketAddress {
    pub ip: IpAddress,
    pub port: u16,
}

/// How many addresses a configured list may hold.
pub const MAX_CONFIGURED_ADDRESSES: usize = 8;

impl IpAddress {
    /// Whether the address is the one that stands for no address.
    pub open spec fn unspecified(self) -> bool {
        match self {
            IpAddress::V4(bits) => bits == 0,
            IpAddress::V6(bits) => bits == 0,
        }
    }

    /// Whether the address is the one that stands for no address.
    pub fn is_unspecified(self) -> (unspecified: bool)
        ensures
            unspecified == self.unspecified(),
    {
        match self {
            IpAddress::V4(bits) => bits == 0,
            IpAddress::V6(bits) => bits == 0,
        }
    }

    /// Whether only this machine can reach the address: `127.0.0.0/8` and `::1`.
    pub open spec fn loopback(self) -> bool {
        match self {
            IpAddress::V4(bits) => bits / 0x100_0000 == 127,
            IpAddress::V6(bits) => bits == 1,
        }
    }

    /// Whether only this machine can reach the address.
    pub fn is_loopback(self) -> (loopback: bool)
        ensures
            loopback == self.loopback(),
    {
        match self {
            IpAddress::V4(bits) => bits / 0x100_0000 == 127,
            IpAddress::V6(bits) => bits == 1,
        }
    }
}

/// Whether a configured list of addresses is usable: it has one to eight of them, and each is
/// specified.
pub open spec fn usable_addresses(addresses: Seq<IpAddress>) -> bool {
    &&& 1 <= addresses.len() <= MAX_CONFIGURED_ADDRESSES
    &&& forall|i: int| 0 <= i < addresses.len() ==> !(#[trigger] addresses[i]).unspecified()
}

/// Whether a configured list of addresses is usable.
pub fn addresses_are_usable(addresses: &[IpAddress]) -> (usable: bool)
    ensures
        usable == usable_addresses(addresses@),
{
    if addresses.len() == 0 || addresses.len() > MAX_CONFIGURED_ADDRESSES {
        return false;
    }
    let mut i: usize = 0;
    while i < addresses.len()
        invariant
            i <= addresses@.len(),
            1 <= addresses@.len() <= MAX_CONFIGURED_ADDRESSES,
            forall|j: int| 0 <= j < i ==> !(#[trigger] addresses@[j]).unspecified(),
        decreases addresses@.len() - i,
    {
        if addresses[i].is_unspecified() {
            return false;
        }
        i += 1;
    }
    true
}

/// An address is of the machine itself where it is in 127.0.0.0/8 or the one of IPv6, and is no
/// address to serve from where it is all zeros; one to eight addresses can be served from.
pub proof fn law_addresses_are_told_apart(address: IpAddress, addresses: Seq<IpAddress>)
    ensures
        address.loopback() <==> match address {
            IpAddress::V4(bits) => 0x7f00_0000 <= bits <= 0x7fff_ffff,
            IpAddress::V6(bits) => bits == 1,
        },
        address.unspecified() <==> address == IpAddress::V4(0) || address == IpAddress::V6(0),
        usable_addresses(addresses) <==> 1 <= addresses.len() <= 8 && !addresses.contains(
            IpAddress::V4(0),
        ) && !addresses.contains(IpAddress::V6(0)),
{
    if usable_addresses(addresses) {
        assert forall|i: int| 0 <= i < addresses.len() implies #[trigger] addresses[i]
            != IpAddress::V4(0) && addresses[i] != IpAddress::V6(0) by {
            assert(!addresses[i].unspecified());
        }
    }
    if !addresses.contains(IpAddress::V4(0)) && !addresses.contains(IpAddress::V6(0)) {
        assert forall|i: int| 0 <= i < addresses.len() implies !(
        #[trigger] addresses[i]).unspecified() by {
            assert(addresses.contains(addresses[i]));
        }
    }
}

} // verus!
