//! Host addresses as plain integers, and the interface-identifier merge.
//!
//! An IPv6 address is split into a network prefix, its high 64 bits, and an
//! interface identifier, its low 64 bits. The prefix of a host changes with
//! the network it is in; the merge keeps the prefix that was found and puts a
//! configured interface identifier in place of the one that was found.

pub mod format;
pub mod parse;
pub mod round_trip;

use vstd::prelude::*;

verus! {

/// Two to the power of 64: the number of interface identifiers in one IPv6 network.
pub const INTERFACE_SPAN: u128 = 0x1_0000_0000_0000_0000;

/// An IPv4 address: its four octets as one big-endian number.
#[derive(Debug, Clone, Copy, PartialEq, Eq, Structural)]
pub struct Ipv4Address {
    pub bits: u32,
}

/// An IPv6 address: its eight 16-bit groups as one big-endian number.
#[derive(Debug, Clone, Copy, PartialEq, Eq, Structural)]
pub struct Ipv6Address {
    pub bits: u128,
}

/// A host address of either family.
#[derive(Debug, Clone, Copy, PartialEq, Eq, Structural)]
pub enum IpAddress {
    V4(Ipv4Address),
    V6(Ipv6Address),
}

impl Ipv6Address {
    /// The network prefix: the high 64 bits.
    pub open spec fn spec_prefix(self) -> int {
        self.bits as int / INTERFACE_SPAN as int
    }

    /// The interface identifier: the low 64 bits.
    pub open spec fn spec_interface_id(self) -> int {
        self.bits as int % INTERFACE_SPAN as int
    }

    /// The address that lies in the network of `self` and has the interface
    /// identifier of `id`.
    pub open spec fn spec_with_interface_of(self, id: Ipv6Address) -> Ipv6Address {
        Ipv6Address {
            bits: (self.spec_prefix() * INTERFACE_SPAN as int + id.spec_interface_id()) as u128,
        }
    }

    /// Returns the network prefix, the high 64 bits of the address.
    pub fn prefix(&self) -> (r: u64)
        ensures
            r == self.spec_prefix(),
    {
        (self.bits / INTERFACE_SPAN) as u64
    }

    /// Returns the interface identifier, the low 64 bits of the address.
    pub fn interface_id(&self) -> (r: u64)
        ensures
            r == self.spec_interface_id(),
    {
        (self.bits % INTERFACE_SPAN) as u64
    }

    /// Returns the address made of the network prefix of `self` and the
    /// interface identifier of `id`. The high 64 bits of `id` play no part.
    pub fn with_interface_of(&self, id: &Ipv6Address) -> (r: Ipv6Address)
        ensures
            r == self.spec_with_interface_of(*id),
            r.spec_prefix() == self.spec_prefix(),
            r.spec_interface_id() == id.spec_interface_id(),
    {
        let high: u128 = self.bits / INTERFACE_SPAN;
        let low: u128 = id.bits % INTERFACE_SPAN;
        Ipv6Address { bits: high * INTERFACE_SPAN + low }
    }
}

/// What the interface-identifier merge gives.
#[derive(Debug, Clone, Copy, PartialEq, Eq, Structural)]
pub struct MergedAddress {
    /// The address to publish.
    pub address: Ipv6Address,
    /// Whether the interface identifier had bits set in its high half. They
    /// play no part in the address; the caller may want to warn about them.
    pub prefix_ignored: bool,
}

/// The address to publish for a host that was found at `resolved`: that
/// address itself where no interface identifier is given, else the address
/// with its low 64 bits replaced by those of the identifier. `None` where the
/// identifier is no IPv6 address.
pub open spec fn spec_merge_interface_id(
    resolved: Ipv6Address,
    interface_id: Option<Seq<char>>,
) -> Option<MergedAddress> {
    match interface_id {
        None => Some(MergedAddress { address: resolved, prefix_ignored: false }),
        Some(text) => match parse::spec_parse_ipv6(text) {
            None => None,
            Some(id) => Some(
                MergedAddress {
                    address: resolved.spec_with_interface_of(id),
                    prefix_ignored: id.spec_prefix() != 0,
                },
            ),
        },
    }
}

/// Returns the address to publish for a host that was found at `resolved`,
/// or `None` where the interface identifier is no IPv6 address.
pub fn merge_interface_id(resolved: &Ipv6Address, interface_id: &Option<String>) -> (r: Option<
    MergedAddress,
>)
    ensures
        r == spec_merge_interface_id(
            *resolved,
            match *interface_id {
                Some(text) => Some(text@),
                None => None,
            },
        ),
{
    match interface_id {
        None => Some(MergedAddress { address: *resolved, prefix_ignored: false }),
        Some(text) => match parse::parse_ipv6(text.as_str()) {
            None => None,
            Some(id) => Some(
                MergedAddress {
                    address: resolved.with_interface_of(&id),
                    prefix_ignored: id.prefix() != 0,
                },
            ),
        },
    }
}

/// The merge keeps the network of the resolved address and takes the
/// interface identifier, and nothing else, from the address that supplies it.
pub proof fn lemma_merge_keeps_prefix_takes_interface(resolved: Ipv6Address, id: Ipv6Address)
    ensures
        resolved.spec_with_interface_of(id).spec_prefix() == resolved.spec_prefix(),
        resolved.spec_with_interface_of(id).spec_interface_id() == id.spec_interface_id(),
{
}

/// An interface identifier that is an IPv6 address is merged whatever its
/// high 64 bits are; where they are not zero this is made known, and nothing
/// else comes of it.
pub proof fn lemma_merge_succeeds_whatever_the_prefix(resolved: Ipv6Address, text: Seq<char>)
    requires
        parse::spec_parse_ipv6(text) is Some,
    ensures
        spec_merge_interface_id(resolved, Some(text)) is Some,
        spec_merge_interface_id(resolved, Some(text))->0.address == resolved.spec_with_interface_of(
            parse::spec_parse_ipv6(text)->0,
        ),
        spec_merge_interface_id(resolved, Some(text))->0.prefix_ignored == (parse::spec_parse_ipv6(
            text,
        )->0.spec_prefix() != 0),
{
}

/// The high 64 bits of the address that supplies the interface identifier
/// make no difference to the merge.
pub proof fn lemma_merge_ignores_prefix_of_identifier(
    resolved: Ipv6Address,
    first: Ipv6Address,
    second: Ipv6Address,
)
    requires
        first.spec_interface_id() == second.spec_interface_id(),
    ensures
        resolved.spec_with_interface_of(first) == resolved.spec_with_interface_of(second),
{
}

} // verus!
