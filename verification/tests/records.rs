use ddns::address::{IpAddress, Ipv4Address, Ipv6Address};
use ddns::api::cloudflare::CloudflareInterface;
use ddns::api::{full_domain_name, RecordDetail};
use ddns::config::RecordType;

fn record(proxied: Option<bool>) -> RecordDetail {
    RecordDetail {
        subdomain_name: String::from("www"),
        base_domain_name: String::from("example.com"),
        ttl: 1,
        proxied,
        ip_addr: IpAddress::V4(Ipv4Address { bits: 0x0102_0304 }),
    }
}

#[test]
fn a_record_equals_itself() {
    for proxied in [None, Some(true), Some(false)] {
        let a = record(proxied);
        assert!(a == a);
        assert!(a == a.clone());
    }
}

#[test]
fn equality_goes_both_ways() {
    let flags = [None, Some(true), Some(false)];
    for first in flags {
        for second in flags {
            let a = record(first);
            let b = record(second);
            assert_eq!(a == b, b == a);
        }
    }
}

#[test]
fn absent_proxied_equals_any() {
    assert!(record(None) == record(Some(true)));
    assert!(record(None) == record(Some(false)));
    assert!(record(Some(true)) == record(None));
    assert!(record(None) == record(None));
}

#[test]
fn present_proxied_flags_must_agree() {
    assert!(record(Some(false)) != record(Some(true)));
    assert!(record(Some(true)) != record(Some(false)));
    assert!(record(Some(true)) == record(Some(true)));
}

#[test]
fn every_other_field_counts() {
    let base = record(Some(true));
    let mut other = record(Some(true));
    other.subdomain_name = String::from("mail");
    assert!(base != other);
    let mut other = record(None);
    other.base_domain_name = String::from("example.org");
    assert!(base != other);
    let mut other = record(None);
    other.ttl = 300;
    assert!(base != other);
    let mut other = record(None);
    other.ip_addr = IpAddress::V4(Ipv4Address { bits: 0x0102_0305 });
    assert!(base != other);
    let mut other = record(None);
    other.ip_addr = IpAddress::V6(Ipv6Address { bits: 0x0102_0304 });
    assert!(base != other);
}

#[test]
fn a_copy_holds_the_same_fields() {
    let a = record(Some(false));
    let b = a.clone();
    assert_eq!(b.subdomain_name, "www");
    assert_eq!(b.base_domain_name, "example.com");
    assert_eq!(b.ttl, 1);
    assert_eq!(b.proxied, Some(false));
    assert_eq!(b.ip_addr, a.ip_addr);
}

#[test]
fn apex_name_is_the_domain() {
    assert_eq!(full_domain_name("@", "example.com"), "example.com");
    assert_eq!(full_domain_name("", "example.com"), "example.com");
    assert_eq!(CloudflareInterface::get_full_domain("@", "example.com"), "example.com");
    assert_eq!(CloudflareInterface::get_full_domain("", "example.com"), "example.com");
    assert_eq!(full_domain_name("@", ""), "");
}

#[test]
fn other_names_stand_before_the_domain() {
    assert_eq!(full_domain_name("www", "example.com"), "www.example.com");
    assert_eq!(full_domain_name("a.b", "example.com"), "a.b.example.com");
    assert_eq!(full_domain_name("@@", "example.com"), "@@.example.com");
    assert_eq!(full_domain_name(" ", "example.com"), " .example.com");
    assert_eq!(full_domain_name("é", "example.com"), "é.example.com");
    assert_eq!(CloudflareInterface::get_full_domain("www", "example.com"), "www.example.com");
    for label in ["www", "mail", "a", "x-1", "*"] {
        assert_eq!(full_domain_name(label, "d.test"), format!("{}.{}", label, "d.test"));
    }
}

#[test]
fn record_type_follows_the_family() {
    assert_eq!(RecordType::from(IpAddress::V4(Ipv4Address { bits: 1 })), RecordType::A);
    assert_eq!(RecordType::from(IpAddress::V6(Ipv6Address { bits: 1 })), RecordType::Aaaa);
    assert_eq!(RecordType::A.name(), "A");
    assert_eq!(RecordType::Aaaa.name(), "AAAA");
}
