use ddns::address::{IpAddress, Ipv4Address, Ipv6Address};
use ddns::api::cloudflare::CloudflareInterfaceBuildConfig;
use ddns::api::ServiceProvider;
use ddns::config::cmd::LogLevel;
use ddns::config::file::{
    default_create_new_record, default_ttl, FileType, SingleDomainSettings, SubDomainSettings,
};
use ddns::config::RecordType;
use ddns::orchestrator::{plan_domain, DomainPlan, ResolvedAddresses};

fn domain(name: &str, record_type: RecordType) -> SingleDomainSettings {
    SingleDomainSettings {
        enabled: true,
        domain_name: String::from(name),
        service_provider: ServiceProvider::Cloudflare(CloudflareInterfaceBuildConfig {
            zone_id: String::from("zone"),
            api_token: String::from("token"),
        }),
        record_type,
        create_new_record: default_create_new_record(),
        subdomains: vec![SubDomainSettings {
            name: String::from("@"),
            ttl: default_ttl(),
            proxied: None,
            interface_id: None,
        }],
    }
}

#[test]
fn both_answers_are_read() {
    let found = ResolvedAddresses::from_answers(Some("203.0.113.5\n"), Some(" 2001:db8::1 "));
    assert_eq!(found.ipv4, Some(Ipv4Address { bits: 0xcb00_7105 }));
    assert_eq!(found.ipv6, Some(Ipv6Address { bits: 0x2001_0db8_0000_0000_0000_0000_0000_0001 }));
}

#[test]
fn one_failed_lookup_leaves_the_other() {
    let found = ResolvedAddresses::from_answers(None, Some("2001:db8::1"));
    assert_eq!(found.ipv4, None);
    assert!(found.ipv6.is_some());
    let found = ResolvedAddresses::from_answers(Some("203.0.113.5"), None);
    assert!(found.ipv4.is_some());
    assert_eq!(found.ipv6, None);
    let found = ResolvedAddresses::from_answers(Some("<html>busy</html>"), Some("::1"));
    assert_eq!(found.ipv4, None);
    assert_eq!(found.ipv6, Some(Ipv6Address { bits: 1 }));
    let found = ResolvedAddresses::from_answers(Some("::1"), Some("203.0.113.5"));
    assert_eq!(found, ResolvedAddresses { ipv4: None, ipv6: None });
}

#[test]
fn address_follows_the_record_type() {
    let found = ResolvedAddresses {
        ipv4: Some(Ipv4Address { bits: 7 }),
        ipv6: Some(Ipv6Address { bits: 9 }),
    };
    assert_eq!(found.address_for(RecordType::A), Some(IpAddress::V4(Ipv4Address { bits: 7 })));
    assert_eq!(found.address_for(RecordType::Aaaa), Some(IpAddress::V6(Ipv6Address { bits: 9 })));
    let none = ResolvedAddresses { ipv4: None, ipv6: None };
    assert_eq!(none.address_for(RecordType::A), None);
    assert_eq!(none.address_for(RecordType::Aaaa), None);
}

#[test]
fn failed_ipv4_lookup_skips_a_domains_only() {
    let found = ResolvedAddresses::from_answers(None, Some("2001:db8::1"));
    let settings = vec![
        domain("a.test", RecordType::A),
        domain("b.test", RecordType::Aaaa),
        domain("c.test", RecordType::A),
        domain("d.test", RecordType::Aaaa),
    ];
    let mut run = Vec::new();
    let mut skipped = Vec::new();
    for one in settings {
        match plan_domain(one, &found) {
            DomainPlan::Run { settings, ip_address } => run.push((settings.domain_name, ip_address)),
            DomainPlan::Skip { domain_name, record_type } => skipped.push((domain_name, record_type)),
        }
    }
    let address = IpAddress::V6(Ipv6Address { bits: 0x2001_0db8_0000_0000_0000_0000_0000_0001 });
    assert_eq!(run, vec![(String::from("b.test"), address), (String::from("d.test"), address)]);
    assert_eq!(
        skipped,
        vec![(String::from("a.test"), RecordType::A), (String::from("c.test"), RecordType::A)]
    );
}

#[test]
fn failed_ipv6_lookup_skips_aaaa_domains_only() {
    let found = ResolvedAddresses::from_answers(Some("10.1.2.3"), Some(""));
    assert!(matches!(
        plan_domain(domain("a.test", RecordType::Aaaa), &found),
        DomainPlan::Skip { .. }
    ));
    match plan_domain(domain("a.test", RecordType::A), &found) {
        DomainPlan::Run { settings, ip_address } => {
            assert_eq!(ip_address, IpAddress::V4(Ipv4Address { bits: 0x0a01_0203 }));
            assert_eq!(settings.domain_name, "a.test");
            assert_eq!(settings.subdomains.len(), 1);
            assert!(settings.create_new_record);
        }
        other => panic!("{:?}", other),
    }
}

#[test]
fn defaults() {
    assert!(default_create_new_record());
    assert_eq!(default_ttl(), 1);
}

#[test]
fn file_type_follows_the_extension() {
    assert_eq!(FileType::from_extension("json"), Some(FileType::Json));
    assert_eq!(FileType::from_extension("toml"), Some(FileType::Toml));
    assert_eq!(FileType::from_extension("JSON"), None);
    assert_eq!(FileType::from_extension("yaml"), None);
    assert_eq!(FileType::from_extension(""), None);
    assert_eq!(FileType::from_extension("json "), None);
}

#[test]
fn log_levels_by_name() {
    assert_eq!(LogLevel::Trace.name(), "trace");
    assert_eq!(LogLevel::Debug.name(), "debug");
    assert_eq!(LogLevel::Info.name(), "info");
    assert_eq!(LogLevel::Warn.name(), "warn");
    assert_eq!(LogLevel::Error.name(), "error");
}
