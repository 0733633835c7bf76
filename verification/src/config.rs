//! Settings that drive a run.

pub mod cmd;
pub mod file;

use crate::address::IpAddress;
use vstd::prelude::*;

verus! {

/// The kind of host-address record a domain is kept in step with.
#[derive(Debug, Clone, Copy, PartialEq, Eq, Structural)]
pub enum RecordType {
    /// An IPv4 host address.
    A,
    /// An IPv6 host address.
    Aaaa,
}

impl RecordType {
    /// The name of the record type as it is written in DNS.
    pub open spec fn spec_name(self) -> Seq<char> {
        match self {
            RecordType::A => "A"@,
            RecordType::Aaaa => "AAAA"@,
        }
    }

    /// Returns the name of the record type as it is written in DNS.
    pub fn name(&self) -> (r: &'static str)
        ensures
            r@ == self.spec_name(),
    {
        match self {
            RecordType::A => "A",
            RecordType::Aaaa => "AAAA",
        }
    }
}

impl RecordType {
    /// The record type that holds an address of the given family.
    pub open spec fn spec_of(address: IpAddress) -> RecordType {
        match address {
            IpAddress::V4(_) => RecordType::A,
            IpAddress::V6(_) => RecordType::Aaaa,
        }
    }
}

impl From<IpAddress> for RecordType {
    /// Returns the record type that holds an address of the given family.
    fn from(value: IpAddress) -> (r: Self) {
        match value {
            IpAddress::V4(_) => RecordType::A,
            IpAddress::V6(_) => RecordType::Aaaa,
        }
    }
}

impl vstd::std_specs::convert::FromSpecImpl<IpAddress> for RecordType {
    open spec fn obeys_from_spec() -> bool {
        true
    }

    open spec fn from_spec(value: IpAddress) -> Self {
        RecordType::spec_of(value)
    }
}

} // verus!
