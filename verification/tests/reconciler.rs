use ddns::address::{IpAddress, Ipv4Address, Ipv6Address};
use ddns::api::cloudflare::CloudflareInterfaceBuildConfig;
use ddns::api::recorded::Recorded;
use ddns::api::{ApiError, ApiInterface, ErrorKind, RecordDetail, ServiceProvider, Severity};
use ddns::config::file::{SingleDomainSettings, SubDomainSettings};
use ddns::config::RecordType;
use ddns::domain_record_changer::{
    decide, reconcile_subdomain, Action, DomainOutcome, DomainRecordChanger, SubdomainOutcome,
};
use ddns::orchestrator::{plan_domain, DomainPlan, ResolvedAddresses};
use std::cell::RefCell;
use std::collections::VecDeque;

/// What a scripted provider saw.
#[derive(Debug, Clone, PartialEq)]
enum Seen {
    Authorize,
    Describe(String, String, RecordType),
    Create(String, String, u32, Option<bool>, IpAddress),
    Update(String, String, u32, Option<bool>, IpAddress),
}

/// A provider that answers from a script and writes down what it is asked.
struct Scripted {
    authorize: Result<(), ApiError>,
    describe: VecDeque<Result<Option<RecordDetail>, ApiError>>,
    change: Result<(), ApiError>,
    seen: RefCell<Vec<Seen>>,
}

impl Scripted {
    fn answering(describe: Vec<Result<Option<RecordDetail>, ApiError>>) -> Scripted {
        Scripted {
            authorize: Ok(()),
            describe: describe.into_iter().collect(),
            change: Ok(()),
            seen: RefCell::new(Vec::new()),
        }
    }

    fn seen(&self) -> Vec<Seen> {
        self.seen.borrow().clone()
    }
}

impl ApiInterface for Scripted {
    type BuildConfigType = ();

    fn new(_config: ()) -> Self {
        Scripted::answering(Vec::new())
    }

    fn authorize(&mut self) -> Result<(), ApiError> {
        self.seen.borrow_mut().push(Seen::Authorize);
        self.authorize.clone()
    }

    fn describe_record(
        &mut self,
        subdomain_name: &str,
        base_domain_name: &str,
        record_type: RecordType,
    ) -> Result<Option<RecordDetail>, ApiError> {
        self.seen.borrow_mut().push(Seen::Describe(
            subdomain_name.to_string(),
            base_domain_name.to_string(),
            record_type,
        ));
        self.describe.pop_front().unwrap_or(Ok(None))
    }

    fn create_record(&self, d: RecordDetail) -> Result<(), ApiError> {
        self.seen.borrow_mut().push(Seen::Create(
            d.subdomain_name,
            d.base_domain_name,
            d.ttl,
            d.proxied,
            d.ip_addr,
        ));
        self.change.clone()
    }

    fn update_record(&self, d: RecordDetail) -> Result<(), ApiError> {
        self.seen.borrow_mut().push(Seen::Update(
            d.subdomain_name,
            d.base_domain_name,
            d.ttl,
            d.proxied,
            d.ip_addr,
        ));
        self.change.clone()
    }
}

const HOST_V4: IpAddress = IpAddress::V4(Ipv4Address { bits: 0xcb00_7105 });
const HOST_V6: IpAddress =
    IpAddress::V6(Ipv6Address { bits: 0x2001_0db8_0000_0000_1234_5678_9abc_def0 });

fn failure(kind: ErrorKind, message: &str) -> ApiError {
    ApiError { kind, message: String::from(message) }
}

fn name(label: &str) -> SubDomainSettings {
    SubDomainSettings { name: String::from(label), ttl: 1, proxied: None, interface_id: None }
}

fn domain(record_type: RecordType, subdomains: Vec<SubDomainSettings>) -> SingleDomainSettings {
    SingleDomainSettings {
        enabled: true,
        domain_name: String::from("example.com"),
        service_provider: ServiceProvider::Cloudflare(CloudflareInterfaceBuildConfig {
            zone_id: String::from("zone"),
            api_token: String::from("token"),
        }),
        record_type,
        create_new_record: true,
        subdomains,
    }
}

fn held(label: &str, proxied: Option<bool>, ip_addr: IpAddress) -> RecordDetail {
    RecordDetail {
        subdomain_name: String::from(label),
        base_domain_name: String::from("example.com"),
        ttl: 1,
        proxied,
        ip_addr,
    }
}

fn reports(outcome: DomainOutcome) -> Vec<(String, SubdomainOutcome)> {
    match outcome {
        DomainOutcome::Reconciled(reports) => {
            reports.into_iter().map(|r| (r.full_domain_name, r.outcome)).collect()
        }
        other => panic!("the names were not worked on: {:?}", other),
    }
}

#[test]
fn decision_table() {
    let desired = held("www", Some(true), HOST_V4);
    assert_eq!(decide(&None, &desired, true), Action::Create);
    assert_eq!(decide(&None, &desired, false), Action::Skip);
    assert_eq!(decide(&Some(held("www", Some(true), HOST_V4)), &desired, true), Action::Skip);
    assert_eq!(decide(&Some(held("www", None, HOST_V4)), &desired, false), Action::Skip);
    assert_eq!(decide(&Some(held("www", Some(false), HOST_V4)), &desired, true), Action::Update);
    assert_eq!(decide(&Some(held("www", Some(true), HOST_V6)), &desired, false), Action::Update);
    let mut other_ttl = held("www", Some(true), HOST_V4);
    other_ttl.ttl = 300;
    assert_eq!(decide(&Some(other_ttl), &desired, true), Action::Update);
}

#[test]
fn disabled_domain_asks_nothing() {
    let mut settings = domain(RecordType::A, vec![name("www"), name("@")]);
    settings.enabled = false;
    let mut changer = DomainRecordChanger::new(settings, HOST_V4, Scripted::answering(vec![]));
    assert!(matches!(changer.start_ddns(), DomainOutcome::Disabled));
    assert_eq!(changer.into_api_interface().seen(), vec![]);
}

#[test]
fn refused_authorization_ends_the_run() {
    let mut provider = Scripted::answering(vec![]);
    provider.authorize = Err(failure(ErrorKind::Authorization, "no"));
    let settings = domain(RecordType::A, vec![name("www")]);
    let mut changer = DomainRecordChanger::new(settings, HOST_V4, provider);
    match changer.start_ddns() {
        DomainOutcome::AuthorizationFailed(error) => {
            assert_eq!(error.kind, ErrorKind::Authorization);
            assert_eq!(error.message, "no");
        }
        other => panic!("{:?}", other),
    }
    assert_eq!(changer.into_api_interface().seen(), vec![Seen::Authorize]);
}

#[test]
fn missing_record_is_created() {
    let mut sub = name("www");
    sub.ttl = 120;
    sub.proxied = Some(true);
    let settings = domain(RecordType::A, vec![sub]);
    let mut changer =
        DomainRecordChanger::new(settings, HOST_V4, Scripted::answering(vec![Ok(None)]));
    let outcome = reports(changer.start_ddns());
    assert_eq!(outcome.len(), 1);
    assert_eq!(outcome[0].0, "www.example.com");
    assert!(matches!(outcome[0].1, SubdomainOutcome::Created));
    assert_eq!(
        changer.into_api_interface().seen(),
        vec![
            Seen::Authorize,
            Seen::Describe(String::from("www"), String::from("example.com"), RecordType::A),
            Seen::Create(
                String::from("www"),
                String::from("example.com"),
                120,
                Some(true),
                HOST_V4
            ),
        ]
    );
}

#[test]
fn missing_record_is_left_missing_when_creation_is_off() {
    let mut settings = domain(RecordType::A, vec![name("www")]);
    settings.create_new_record = false;
    let mut changer =
        DomainRecordChanger::new(settings, HOST_V4, Scripted::answering(vec![Ok(None)]));
    let outcome = reports(changer.start_ddns());
    assert!(matches!(outcome[0].1, SubdomainOutcome::Missing));
    assert_eq!(changer.into_api_interface().seen().len(), 2);
}

#[test]
fn matching_record_is_left_alone() {
    let mut sub = name("www");
    sub.proxied = Some(true);
    let settings = domain(RecordType::A, vec![sub, name("@")]);
    let provider = Scripted::answering(vec![
        Ok(Some(held("www", None, HOST_V4))),
        Ok(Some(held("@", Some(false), HOST_V4))),
    ]);
    let mut changer = DomainRecordChanger::new(settings, HOST_V4, provider);
    let outcome = reports(changer.start_ddns());
    assert_eq!(outcome.len(), 2);
    assert!(matches!(outcome[0].1, SubdomainOutcome::Unchanged));
    assert!(matches!(outcome[1].1, SubdomainOutcome::Unchanged));
    assert_eq!(outcome[1].0, "example.com");
    assert_eq!(
        changer.into_api_interface().seen(),
        vec![
            Seen::Authorize,
            Seen::Describe(String::from("www"), String::from("example.com"), RecordType::A),
            Seen::Describe(String::from("@"), String::from("example.com"), RecordType::A),
        ]
    );
}

#[test]
fn differing_record_is_changed() {
    let settings = domain(RecordType::A, vec![name("www")]);
    let other = IpAddress::V4(Ipv4Address { bits: 0x0a00_0001 });
    let provider = Scripted::answering(vec![Ok(Some(held("www", Some(true), other)))]);
    let mut changer = DomainRecordChanger::new(settings, HOST_V4, provider);
    let outcome = reports(changer.start_ddns());
    assert!(matches!(outcome[0].1, SubdomainOutcome::Updated));
    assert_eq!(
        changer.into_api_interface().seen(),
        vec![
            Seen::Authorize,
            Seen::Describe(String::from("www"), String::from("example.com"), RecordType::A),
            Seen::Update(String::from("www"), String::from("example.com"), 1, None, HOST_V4),
        ]
    );
}

#[test]
fn differing_ttl_is_changed_even_if_automatic() {
    let settings = domain(RecordType::A, vec![name("www")]);
    let mut found = held("www", None, HOST_V4);
    found.ttl = 300;
    let mut changer =
        DomainRecordChanger::new(settings, HOST_V4, Scripted::answering(vec![Ok(Some(found))]));
    let outcome = reports(changer.start_ddns());
    assert!(matches!(outcome[0].1, SubdomainOutcome::Updated));
}

#[test]
fn ambiguous_or_failed_describe_changes_nothing_and_goes_on() {
    let settings = domain(RecordType::A, vec![name("a"), name("b"), name("c")]);
    let provider = Scripted::answering(vec![
        Err(failure(
            ErrorKind::DescribeAmbiguous,
            "More than 1 record exists for A record of a.example.com.",
        )),
        Ok(None),
        Err(failure(ErrorKind::Transport, "timeout")),
    ]);
    let mut changer = DomainRecordChanger::new(settings, HOST_V4, provider);
    let outcome = reports(changer.start_ddns());
    assert_eq!(outcome.len(), 3);
    match &outcome[0].1 {
        SubdomainOutcome::DescribeFailed(error) => {
            assert_eq!(error.kind, ErrorKind::DescribeAmbiguous);
            assert_eq!(error.kind.severity(), Severity::Warning);
            assert_eq!(
                error.message,
                "More than 1 record exists for A record of a.example.com."
            )
        }
        other => panic!("{:?}", other),
    }
    assert!(matches!(outcome[1].1, SubdomainOutcome::Created));
    match &outcome[2].1 {
        SubdomainOutcome::DescribeFailed(error) => {
            assert_eq!(error.kind, ErrorKind::Transport);
            assert_eq!(error.kind.severity(), Severity::Error);
        }
        other => panic!("{:?}", other),
    }
    assert_eq!(
        changer.into_api_interface().seen(),
        vec![
            Seen::Authorize,
            Seen::Describe(String::from("a"), String::from("example.com"), RecordType::A),
            Seen::Describe(String::from("b"), String::from("example.com"), RecordType::A),
            Seen::Create(String::from("b"), String::from("example.com"), 1, None, HOST_V4),
            Seen::Describe(String::from("c"), String::from("example.com"), RecordType::A),
        ]
    );
}

#[test]
fn failed_change_is_reported_and_the_run_goes_on() {
    let settings = domain(RecordType::A, vec![name("a"), name("b")]);
    let other = IpAddress::V4(Ipv4Address { bits: 1 });
    let mut provider = Scripted::answering(vec![Ok(None), Ok(Some(held("b", None, other)))]);
    provider.change = Err(failure(ErrorKind::ProviderApi, "refused"));
    let mut changer = DomainRecordChanger::new(settings, HOST_V4, provider);
    let outcome = reports(changer.start_ddns());
    match &outcome[0].1 {
        SubdomainOutcome::CreateFailed(error) => {
            assert_eq!(error.kind, ErrorKind::ProviderApi);
            assert_eq!(error.message, "refused");
        }
        other => panic!("{:?}", other),
    }
    match &outcome[1].1 {
        SubdomainOutcome::UpdateFailed(error) => assert_eq!(error.message, "refused"),
        other => panic!("{:?}", other),
    }
    assert_eq!(changer.into_api_interface().seen().len(), 5);
}

#[test]
fn interface_identifier_is_merged_into_the_published_address() {
    let mut custom = name("nas");
    custom.interface_id = Some(String::from("::ffff:ffff:ffff:ffff"));
    let mut loud = name("loud");
    loud.interface_id = Some(String::from("fe80::1"));
    let mut broken = name("broken");
    broken.interface_id = Some(String::from("nonsense"));
    let settings = domain(RecordType::Aaaa, vec![custom, broken, loud, name("plain")]);
    let mut changer = DomainRecordChanger::new(settings, HOST_V6, Scripted::answering(vec![]));
    let outcome = match changer.start_ddns() {
        DomainOutcome::Reconciled(reports) => reports,
        other => panic!("{:?}", other),
    };
    assert_eq!(outcome.len(), 4);
    let merged = IpAddress::V6(Ipv6Address { bits: 0x2001_0db8_0000_0000_ffff_ffff_ffff_ffff });
    let loud_address = IpAddress::V6(Ipv6Address { bits: 0x2001_0db8_0000_0000_0000_0000_0000_0001 });
    assert_eq!(outcome[0].address, Some(merged));
    assert!(!outcome[0].prefix_ignored);
    assert!(matches!(outcome[0].outcome, SubdomainOutcome::Created));
    assert_eq!(outcome[1].address, None);
    assert_eq!(outcome[1].full_domain_name, "broken.example.com");
    match &outcome[1].outcome {
        SubdomainOutcome::InvalidInterfaceId(text) => assert_eq!(text, "nonsense"),
        other => panic!("{:?}", other),
    }
    assert_eq!(outcome[2].address, Some(loud_address));
    assert!(outcome[2].prefix_ignored);
    assert_eq!(outcome[3].address, Some(HOST_V6));
    assert!(!outcome[3].prefix_ignored);
    assert_eq!(
        changer.into_api_interface().seen(),
        vec![
            Seen::Authorize,
            Seen::Describe(String::from("nas"), String::from("example.com"), RecordType::Aaaa),
            Seen::Create(String::from("nas"), String::from("example.com"), 1, None, merged),
            Seen::Describe(String::from("loud"), String::from("example.com"), RecordType::Aaaa),
            Seen::Create(String::from("loud"), String::from("example.com"), 1, None, loud_address),
            Seen::Describe(String::from("plain"), String::from("example.com"), RecordType::Aaaa),
            Seen::Create(String::from("plain"), String::from("example.com"), 1, None, HOST_V6),
        ]
    );
}

#[test]
fn interface_identifier_plays_no_part_for_ipv4() {
    let mut sub = name("www");
    sub.interface_id = Some(String::from("nonsense"));
    let settings = domain(RecordType::A, vec![sub]);
    let mut changer = DomainRecordChanger::new(settings, HOST_V4, Scripted::answering(vec![]));
    let outcome = match changer.start_ddns() {
        DomainOutcome::Reconciled(reports) => reports,
        other => panic!("{:?}", other),
    };
    assert_eq!(outcome[0].address, Some(HOST_V4));
    assert!(matches!(outcome[0].outcome, SubdomainOutcome::Created));
}

#[test]
fn record_type_asked_for_follows_the_address() {
    let settings = domain(RecordType::A, vec![name("www")]);
    let mut changer = DomainRecordChanger::new(settings, HOST_V6, Scripted::answering(vec![]));
    changer.start_ddns();
    let seen = changer.into_api_interface().seen();
    assert_eq!(
        seen[1],
        Seen::Describe(String::from("www"), String::from("example.com"), RecordType::Aaaa)
    );
}

#[test]
fn domain_without_names_only_authorizes() {
    let settings = domain(RecordType::A, vec![]);
    let mut changer = DomainRecordChanger::new(settings, HOST_V4, Scripted::answering(vec![]));
    assert_eq!(reports(changer.start_ddns()).len(), 0);
    assert_eq!(changer.into_api_interface().seen(), vec![Seen::Authorize]);
}

#[test]
fn one_name_on_its_own() {
    let mut provider = Recorded::new(Scripted::answering(vec![Ok(None)]));
    let report = reconcile_subdomain(
        &mut provider,
        "example.com",
        false,
        &HOST_V4,
        &name(""),
    );
    assert_eq!(report.full_domain_name, "example.com");
    assert_eq!(report.address, Some(HOST_V4));
    assert!(matches!(report.outcome, SubdomainOutcome::Missing));
    assert_eq!(
        provider.into_inner().seen(),
        vec![Seen::Describe(String::new(), String::from("example.com"), RecordType::A)]
    );
}

#[test]
fn recorded_provider_hands_answers_through() {
    let mut script = Scripted::answering(vec![Err(failure(ErrorKind::Transport, "down"))]);
    script.change = Err(failure(ErrorKind::ProviderApi, "refused"));
    let mut provider = Recorded::new(script);
    assert!(provider.authorize().is_ok());
    let described = provider.describe("www", "example.com", RecordType::A).unwrap_err();
    assert_eq!(described.kind, ErrorKind::Transport);
    assert_eq!(described.message, "down");
    let created = provider.create(held("www", None, HOST_V4)).unwrap_err();
    assert_eq!(created.message, "refused");
    let updated = provider.update(held("www", None, HOST_V4)).unwrap_err();
    assert_eq!(updated.kind, ErrorKind::ProviderApi);
    assert_eq!(provider.into_inner().seen().len(), 4);
}

#[test]
fn failed_ipv4_lookup_leaves_aaaa_domains_running() {
    let found = ResolvedAddresses::from_answers(None, Some("2001:db8::1234:5678:9abc:def0\n"));
    let mut asked = Vec::new();
    let mut skipped = Vec::new();
    for (label, record_type) in
        [("a", RecordType::A), ("b", RecordType::Aaaa), ("c", RecordType::A), ("d", RecordType::Aaaa)]
    {
        let mut settings = domain(record_type, vec![name(label)]);
        settings.domain_name = format!("{}.test", label);
        match plan_domain(settings, &found) {
            DomainPlan::Skip { domain_name, record_type } => skipped.push((domain_name, record_type)),
            DomainPlan::Run { settings, ip_address } => {
                assert_eq!(ip_address, HOST_V6);
                let mut changer =
                    DomainRecordChanger::new(settings, ip_address, Scripted::answering(vec![]));
                let outcome = reports(changer.start_ddns());
                assert!(matches!(outcome[0].1, SubdomainOutcome::Created));
                asked.push(changer.into_api_interface().seen());
            }
        }
    }
    assert_eq!(
        skipped,
        vec![(String::from("a.test"), RecordType::A), (String::from("c.test"), RecordType::A)]
    );
    assert_eq!(asked.len(), 2);
    assert_eq!(
        asked[0],
        vec![
            Seen::Authorize,
            Seen::Describe(String::from("b"), String::from("b.test"), RecordType::Aaaa),
            Seen::Create(String::from("b"), String::from("b.test"), 1, None, HOST_V6),
        ]
    );
    assert_eq!(asked[1].len(), 3);
}

#[test]
fn only_several_records_are_a_warning() {
    for kind in [
        ErrorKind::Authorization,
        ErrorKind::Transport,
        ErrorKind::Decode,
        ErrorKind::ProviderApi,
        ErrorKind::Misuse,
    ] {
        assert_eq!(kind.severity(), Severity::Error);
    }
    assert_eq!(ErrorKind::DescribeAmbiguous.severity(), Severity::Warning);
    let error = failure(ErrorKind::Decode, "bad");
    let copy = error.clone();
    assert_eq!(copy.kind, ErrorKind::Decode);
    assert_eq!(copy.message, "bad");
}
