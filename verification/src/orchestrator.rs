//! What a run does with the addresses it found: which domains are worked on,
//! and with which address.
//!
//! The two address families are looked up independently. A family whose
//! lookup failed leaves the domains of that family out of the run; the domains
//! of the other family are worked on as usual.

use crate::address::parse::{
    parse_ipv4_trimmed, parse_ipv6_trimmed, spec_parse_ipv4, spec_parse_ipv6, spec_trim,
};
use crate::address::{IpAddress, Ipv4Address, Ipv6Address};
use crate::config::file::SingleDomainSettings;
use crate::config::RecordType;
use vstd::prelude::*;

verus! {

/// The addresses of the host, as far as they could be found.
#[derive(Debug, Clone, Copy, PartialEq, Eq, Structural)]
pub struct ResolvedAddresses {
    pub ipv4: Option<Ipv4Address>,
    pub ipv6: Option<Ipv6Address>,
}

/// The IPv4 address that a service answered with: the answer, without the
/// white space around it, read as an IPv4 address. `None` where the service
/// did not answer or answered with something else.
pub open spec fn spec_resolved_ipv4(answer: Option<Seq<char>>) -> Option<Ipv4Address> {
    match answer {
        Some(body) => spec_parse_ipv4(spec_trim(body)),
        None => None,
    }
}

/// The IPv6 address that a service answered with: the answer, without the
/// white space around it, read as an IPv6 address. `None` where the service
/// did not answer or answered with something else.
pub open spec fn spec_resolved_ipv6(answer: Option<Seq<char>>) -> Option<Ipv6Address> {
    match answer {
        Some(body) => spec_parse_ipv6(spec_trim(body)),
        None => None,
    }
}

/// The mathematical value of an answer that may be missing.
pub open spec fn answer_view(answer: Option<&str>) -> Option<Seq<char>> {
    match answer {
        Some(body) => Some(body@),
        None => None,
    }
}

impl ResolvedAddresses {
    /// The address that a record of the given type is to hold, where the
    /// address of that family was found.
    pub open spec fn spec_address_for(self, record_type: RecordType) -> Option<IpAddress> {
        match record_type {
            RecordType::A => match self.ipv4 {
                Some(address) => Some(IpAddress::V4(address)),
                None => None,
            },
            RecordType::Aaaa => match self.ipv6 {
                Some(address) => Some(IpAddress::V6(address)),
                None => None,
            },
        }
    }

    /// Returns the addresses that the two services answered with. An answer
    /// is `None` where the service could not be reached or did not answer
    /// with text. Either address is read from its own answer alone.
    pub fn from_answers(ipv4_answer: Option<&str>, ipv6_answer: Option<&str>) -> (r: Self)
        ensures
            r.ipv4 == spec_resolved_ipv4(answer_view(ipv4_answer)),
            r.ipv6 == spec_resolved_ipv6(answer_view(ipv6_answer)),
    {
        let ipv4 = match ipv4_answer {
            Some(body) => parse_ipv4_trimmed(body),
            None => None,
        };
        let ipv6 = match ipv6_answer {
            Some(body) => parse_ipv6_trimmed(body),
            None => None,
        };
        ResolvedAddresses { ipv4, ipv6 }
    }

    /// Returns the address that a record of the given type is to hold, or
    /// `None` where the address of that family was not found.
    pub fn address_for(&self, record_type: RecordType) -> (r: Option<IpAddress>)
        ensures
            r == self.spec_address_for(record_type),
            r matches Some(address) ==> RecordType::spec_of(address) == record_type,
    {
        match record_type {
            RecordType::A => match self.ipv4 {
                Some(address) => Some(IpAddress::V4(address)),
                None => None,
            },
            RecordType::Aaaa => match self.ipv6 {
                Some(address) => Some(IpAddress::V6(address)),
                None => None,
            },
        }
    }
}

/// What a run does with one domain.
#[derive(Debug)]
pub enum DomainPlan {
    /// The domain is handed to a reconciler, with the address of its family.
    Run { settings: SingleDomainSettings, ip_address: IpAddress },
    /// The domain is left out, because the address of its family was not found.
    Skip { domain_name: String, record_type: RecordType },
}

/// Returns what a run does with one domain: it is worked on with the address
/// of its family, and left out where that address was not found.
pub fn plan_domain(settings: SingleDomainSettings, addresses: &ResolvedAddresses) -> (plan:
    DomainPlan)
    ensures
        match addresses.spec_address_for(settings.record_type) {
            Some(address) => plan matches DomainPlan::Run { settings: kept, ip_address }
                && kept == settings && ip_address == address,
            None => plan matches DomainPlan::Skip { domain_name, record_type } && domain_name
                == settings.domain_name && record_type == settings.record_type,
        },
{
    match addresses.address_for(settings.record_type) {
        Some(ip_address) => DomainPlan::Run { settings, ip_address },
        None => DomainPlan::Skip {
            domain_name: settings.domain_name,
            record_type: settings.record_type,
        },
    }
}

/// The address for one family does not depend on whether the address of the
/// other family was found.
pub proof fn lemma_families_are_independent(first: ResolvedAddresses, second: ResolvedAddresses)
    ensures
        first.ipv4 == second.ipv4 ==> first.spec_address_for(RecordType::A)
            == second.spec_address_for(RecordType::A),
        first.ipv6 == second.ipv6 ==> first.spec_address_for(RecordType::Aaaa)
            == second.spec_address_for(RecordType::Aaaa),
{
}

/// A domain is left out of a run exactly if the address of its family was
/// not found.
pub proof fn lemma_missing_family_is_left_out(addresses: ResolvedAddresses, record_type: RecordType)
    ensures
        addresses.spec_address_for(record_type) is None <==> match record_type {
            RecordType::A => addresses.ipv4 is None,
            RecordType::Aaaa => addresses.ipv6 is None,
        },
{
}

} // verus!
