//! The reconciler: for one domain, brings the records that a provider holds
//! in step with the address of the host.
//!
//! For each name the reconciler asks the provider for the record it holds,
//! and then creates a record, changes the record or leaves things as they are.
//! A name that fails does not stop the names after it.

use crate::address::{merge_interface_id, spec_merge_interface_id, IpAddress};
use crate::api::recorded::Recorded;
use crate::api::{
    change_follows, full_domain_name, spec_full_domain_name, ApiError, ApiErrorView,
    ApiInterface, ProviderCall, RecordDetail, RecordDetailView,
};
use crate::config::file::{SingleDomainSettings, SubDomainSettings, SubDomainSettingsView};
use crate::config::RecordType;
use vstd::prelude::*;

verus! {

/// What is done about a record once the provider has said what it holds.
#[derive(Debug, Clone, Copy, PartialEq, Eq, Structural)]
pub enum Action {
    /// The provider holds no record, and one is created.
    Create,
    /// The provider holds a record that differs from the wanted one, and it
    /// is changed.
    Update,
    /// Nothing is done: the record is as wanted, or there is none and none
    /// is to be created.
    Skip,
}

/// What is done about a record: a missing record is created if records are
/// to be created, a record that does not match the wanted one is changed, and
/// in every other case nothing is done.
pub open spec fn spec_decide(
    actual: Option<RecordDetailView>,
    desired: RecordDetailView,
    create_new_record: bool,
) -> Action {
    match actual {
        None => if create_new_record {
            Action::Create
        } else {
            Action::Skip
        },
        Some(found) => if found.matches(desired) {
            Action::Skip
        } else {
            Action::Update
        },
    }
}

/// The mathematical value of a record that may be missing.
pub open spec fn found_view(actual: Option<RecordDetail>) -> Option<RecordDetailView> {
    match actual {
        Some(found) => Some(found@),
        None => None,
    }
}

/// Returns what is done about a record, given the record that the provider
/// holds, if any, and the record that is wanted.
pub fn decide(
    actual: &Option<RecordDetail>,
    desired: &RecordDetail,
    create_new_record: bool,
) -> (action: Action)
    ensures
        action == spec_decide(found_view(*actual), desired@, create_new_record),
{
    match actual {
        None => {
            if create_new_record {
                Action::Create
            } else {
                Action::Skip
            }
        },
        Some(found) => {
            if *found == *desired {
                Action::Skip
            } else {
                Action::Update
            }
        },
    }
}

/// How the work on one name ended.
#[derive(Debug)]
pub enum SubdomainOutcome {
    /// The interface identifier of the name, which is given, is no IPv6
    /// address. The provider was not asked anything.
    InvalidInterfaceId(String),
    /// The provider could not say what it holds: it holds more than one
    /// record for the name, or it failed.
    DescribeFailed(ApiError),
    /// The provider holds no record, and none was to be created.
    Missing,
    /// The provider held no record, and one was created.
    Created,
    /// The provider holds no record, and creating one failed.
    CreateFailed(ApiError),
    /// The provider holds the record as wanted.
    Unchanged,
    /// The provider held another record, and it was changed.
    Updated,
    /// The provider holds another record, and changing it failed.
    UpdateFailed(ApiError),
}

/// The mathematical value of a `SubdomainOutcome`.
pub enum SubdomainOutcomeView {
    InvalidInterfaceId(Seq<char>),
    DescribeFailed(ApiErrorView),
    Missing,
    Created,
    CreateFailed(ApiErrorView),
    Unchanged,
    Updated,
    UpdateFailed(ApiErrorView),
}

impl View for SubdomainOutcome {
    type V = SubdomainOutcomeView;

    open spec fn view(&self) -> SubdomainOutcomeView {
        match *self {
            SubdomainOutcome::InvalidInterfaceId(text) => SubdomainOutcomeView::InvalidInterfaceId(
                text@,
            ),
            SubdomainOutcome::DescribeFailed(reason) => SubdomainOutcomeView::DescribeFailed(
                reason@,
            ),
            SubdomainOutcome::Missing => SubdomainOutcomeView::Missing,
            SubdomainOutcome::Created => SubdomainOutcomeView::Created,
            SubdomainOutcome::CreateFailed(reason) => SubdomainOutcomeView::CreateFailed(reason@),
            SubdomainOutcome::Unchanged => SubdomainOutcomeView::Unchanged,
            SubdomainOutcome::Updated => SubdomainOutcomeView::Updated,
            SubdomainOutcome::UpdateFailed(reason) => SubdomainOutcomeView::UpdateFailed(reason@),
        }
    }
}

impl SubdomainOutcomeView {
    /// How many calls on the provider lead to the outcome.
    pub open spec fn call_count(self) -> nat {
        match self {
            SubdomainOutcomeView::InvalidInterfaceId(_) => 0,
            SubdomainOutcomeView::DescribeFailed(_) => 1,
            SubdomainOutcomeView::Missing => 1,
            SubdomainOutcomeView::Unchanged => 1,
            SubdomainOutcomeView::Created => 2,
            SubdomainOutcomeView::CreateFailed(_) => 2,
            SubdomainOutcomeView::Updated => 2,
            SubdomainOutcomeView::UpdateFailed(_) => 2,
        }
    }
}

/// What was done for one name.
#[derive(Debug)]
pub struct SubdomainReport {
    /// The fully-qualified name.
    pub full_domain_name: String,
    /// The address that the record is to hold; `None` where the interface
    /// identifier is no IPv6 address.
    pub address: Option<IpAddress>,
    /// Whether the interface identifier had bits set in its high half, which
    /// were ignored.
    pub prefix_ignored: bool,
    pub outcome: SubdomainOutcome,
}

/// The mathematical value of a `SubdomainReport`.
pub struct SubdomainReportView {
    pub full_domain_name: Seq<char>,
    pub address: Option<IpAddress>,
    pub prefix_ignored: bool,
    pub outcome: SubdomainOutcomeView,
}

impl View for SubdomainReport {
    type V = SubdomainReportView;

    open spec fn view(&self) -> SubdomainReportView {
        SubdomainReportView {
            full_domain_name: self.full_domain_name@,
            address: self.address,
            prefix_ignored: self.prefix_ignored,
            outcome: self.outcome@,
        }
    }
}

/// How the work on one domain ended.
#[derive(Debug)]
pub enum DomainOutcome {
    /// The domain is switched off. The provider was not asked anything.
    Disabled,
    /// The provider did not accept the instance. Nothing else was asked of it.
    AuthorizationFailed(ApiError),
    /// Every name was worked on, in the order of the settings.
    Reconciled(Vec<SubdomainReport>),
}

/// The mathematical value of a `DomainOutcome`.
pub enum DomainOutcomeView {
    Disabled,
    AuthorizationFailed(ApiErrorView),
    Reconciled(Seq<SubdomainReportView>),
}

/// The mathematical values of a list of reports.
pub open spec fn report_views(reports: Seq<SubdomainReport>) -> Seq<SubdomainReportView> {
    Seq::new(reports.len(), |i: int| reports[i]@)
}

/// The mathematical values of a list of names.
pub open spec fn subdomain_views(subdomains: Seq<SubDomainSettings>) -> Seq<SubDomainSettingsView> {
    Seq::new(subdomains.len(), |i: int| subdomains[i]@)
}

impl View for DomainOutcome {
    type V = DomainOutcomeView;

    open spec fn view(&self) -> DomainOutcomeView {
        match *self {
            DomainOutcome::Disabled => DomainOutcomeView::Disabled,
            DomainOutcome::AuthorizationFailed(reason) => DomainOutcomeView::AuthorizationFailed(
                reason@,
            ),
            DomainOutcome::Reconciled(reports) => DomainOutcomeView::Reconciled(
                report_views(reports@),
            ),
        }
    }
}

/// What a reconciler is told about its domain.
pub struct DomainView {
    pub enabled: bool,
    pub domain_name: Seq<char>,
    pub record_type: RecordType,
    pub create_new_record: bool,
    pub subdomains: Seq<SubDomainSettingsView>,
    /// The address of the host.
    pub ip_address: IpAddress,
}

/// What is published for a name.
pub struct Published {
    pub address: IpAddress,
    pub prefix_ignored: bool,
}

/// The address to publish for a name: an IPv4 address as it is, an IPv6
/// address after the interface-identifier merge. `None` where the interface
/// identifier is no IPv6 address.
pub open spec fn spec_published(ip_address: IpAddress, interface_id: Option<Seq<char>>) -> Option<
    Published,
> {
    match ip_address {
        IpAddress::V4(_) => Some(Published { address: ip_address, prefix_ignored: false }),
        IpAddress::V6(resolved) => match spec_merge_interface_id(resolved, interface_id) {
            Some(merged) => Some(
                Published {
                    address: IpAddress::V6(merged.address),
                    prefix_ignored: merged.prefix_ignored,
                },
            ),
            None => None,
        },
    }
}

/// The record that is wanted for a name, given the address to publish.
pub open spec fn spec_desired_record(
    domain_name: Seq<char>,
    subdomain: SubDomainSettingsView,
    address: IpAddress,
) -> RecordDetailView {
    RecordDetailView {
        subdomain_name: subdomain.name,
        base_domain_name: domain_name,
        ttl: subdomain.ttl,
        proxied: subdomain.proxied,
        ip_addr: address,
    }
}

/// The outcome that the answer to a creation or a change leads to.
pub open spec fn change_outcome(
    action: Action,
    answer: Result<(), ApiErrorView>,
) -> SubdomainOutcomeView {
    match (action, answer) {
        (Action::Create, Ok(_)) => SubdomainOutcomeView::Created,
        (Action::Create, Err(reason)) => SubdomainOutcomeView::CreateFailed(reason),
        (_, Ok(_)) => SubdomainOutcomeView::Updated,
        (_, Err(reason)) => SubdomainOutcomeView::UpdateFailed(reason),
    }
}

/// Whether `calls` and `report` are what the work on one name gives.
///
/// Without an address to publish nothing is asked of the provider. Else the
/// provider is asked once for the record of the name, with the record type of
/// the host's address. If it fails the work ends. If it answers, what
/// `spec_decide` says is done: nothing more, or one creation, or one change,
/// each with the wanted record.
pub open spec fn reconciles_subdomain(
    domain_name: Seq<char>,
    create_new_record: bool,
    ip_address: IpAddress,
    subdomain: SubDomainSettingsView,
    calls: Seq<ProviderCall>,
    report: SubdomainReportView,
) -> bool {
    &&& report.full_domain_name == spec_full_domain_name(subdomain.name, domain_name)
    &&& match spec_published(ip_address, subdomain.interface_id) {
        None => {
            &&& report.address is None
            &&& !report.prefix_ignored
            &&& subdomain.interface_id is Some
            &&& report.outcome == SubdomainOutcomeView::InvalidInterfaceId(
                subdomain.interface_id->0,
            )
            &&& calls.len() == 0
        },
        Some(published) => {
            let desired = spec_desired_record(domain_name, subdomain, published.address);
            &&& report.address == Some(published.address)
            &&& report.prefix_ignored == published.prefix_ignored
            &&& calls.len() >= 1
            &&& calls[0] matches ProviderCall::DescribeRecord {
                subdomain_name,
                base_domain_name,
                record_type,
                outcome,
            }
            &&& subdomain_name == subdomain.name
            &&& base_domain_name == domain_name
            &&& record_type == RecordType::spec_of(ip_address)
            &&& match outcome {
                Err(reason) => {
                    &&& calls.len() == 1
                    &&& report.outcome == SubdomainOutcomeView::DescribeFailed(reason)
                },
                Ok(actual) => match spec_decide(actual, desired, create_new_record) {
                    Action::Skip => {
                        &&& calls.len() == 1
                        &&& report.outcome == if actual is None {
                            SubdomainOutcomeView::Missing
                        } else {
                            SubdomainOutcomeView::Unchanged
                        }
                    },
                    Action::Create => {
                        &&& calls.len() == 2
                        &&& calls[1] matches ProviderCall::CreateRecord { record, outcome: answer }
                        &&& record == desired
                        &&& report.outcome == change_outcome(Action::Create, answer)
                    },
                    Action::Update => {
                        &&& calls.len() == 2
                        &&& calls[1] matches ProviderCall::UpdateRecord { record, outcome: answer }
                        &&& record == desired
                        &&& report.outcome == change_outcome(Action::Update, answer)
                    },
                },
            }
        },
    }
}

/// Whether `calls` and `reports` are what the work on the given names, one
/// after the other, gives: there is one report for each name, and the calls
/// are those of the first name, then those of the second, and so on.
pub open spec fn reconciles_subdomains(
    domain: DomainView,
    subdomains: Seq<SubDomainSettingsView>,
    calls: Seq<ProviderCall>,
    reports: Seq<SubdomainReportView>,
) -> bool
    decreases subdomains.len(),
{
    if subdomains.len() == 0 {
        calls.len() == 0 && reports.len() == 0
    } else {
        &&& reports.len() == subdomains.len()
        &&& reports.last().outcome.call_count() <= calls.len()
        &&& reconciles_subdomain(
            domain.domain_name,
            domain.create_new_record,
            domain.ip_address,
            subdomains.last(),
            calls.skip(calls.len() - reports.last().outcome.call_count()),
            reports.last(),
        )
        &&& reconciles_subdomains(
            domain,
            subdomains.drop_last(),
            calls.take(calls.len() - reports.last().outcome.call_count()),
            reports.drop_last(),
        )
    }
}

/// Whether `calls` and `outcome` are what one run on a domain gives.
///
/// A domain that is switched off asks nothing of the provider. Else the
/// provider is asked to authorize; if it refuses the run ends, and if it
/// accepts the names are worked on in order.
pub open spec fn reconciles_domain(
    domain: DomainView,
    calls: Seq<ProviderCall>,
    outcome: DomainOutcomeView,
) -> bool {
    if !domain.enabled {
        calls.len() == 0 && outcome == DomainOutcomeView::Disabled
    } else {
        &&& calls.len() >= 1
        &&& calls[0] matches ProviderCall::Authorize { outcome: answer }
        &&& match answer {
            Err(reason) => calls.len() == 1 && outcome == DomainOutcomeView::AuthorizationFailed(
                reason,
            ),
            Ok(_) => {
                &&& outcome matches DomainOutcomeView::Reconciled(reports)
                &&& reconciles_subdomains(domain, domain.subdomains, calls.skip(1), reports)
            },
        }
    }
}

/// A domain that is switched off asks nothing of the provider.
pub proof fn lemma_disabled_domain_asks_nothing(
    domain: DomainView,
    calls: Seq<ProviderCall>,
    outcome: DomainOutcomeView,
)
    requires
        reconciles_domain(domain, calls, outcome),
        !domain.enabled,
    ensures
        calls.len() == 0,
        outcome == DomainOutcomeView::Disabled,
{
}

/// A provider that refuses to authorize is asked nothing else.
pub proof fn lemma_refused_authorization_ends_run(
    domain: DomainView,
    calls: Seq<ProviderCall>,
    outcome: DomainOutcomeView,
)
    requires
        reconciles_domain(domain, calls, outcome),
        domain.enabled,
        calls[0] matches ProviderCall::Authorize { outcome: answer } ==> answer is Err,
    ensures
        calls.len() == 1,
        outcome is AuthorizationFailed,
{
}

/// The first thing asked about a name is what the provider holds. A record
/// is created only after the provider has said that it holds none, and only
/// where records are to be created; a record is changed only after the
/// provider has said that it holds one, and only where that one does not
/// match the wanted record. Either is the second and last call for the name.
pub proof fn lemma_changes_follow_describe(
    domain_name: Seq<char>,
    create_new_record: bool,
    ip_address: IpAddress,
    subdomain: SubDomainSettingsView,
    calls: Seq<ProviderCall>,
    report: SubdomainReportView,
    i: int,
)
    requires
        reconciles_subdomain(domain_name, create_new_record, ip_address, subdomain, calls, report),
        0 <= i < calls.len(),
    ensures
        calls.len() <= 2,
        calls[0] is DescribeRecord,
        !(calls[i] is Authorize),
        i == 1 <==> calls[i] is CreateRecord || calls[i] is UpdateRecord,
        calls[i] is CreateRecord ==> create_new_record && calls[0].described() == Some(
            Ok::<Option<RecordDetailView>, ApiErrorView>(None),
        ),
        calls[i] is UpdateRecord ==> calls[0].described() is Some && calls[0].described()->0 is Ok
            && calls[0].described()->0->Ok_0 is Some && !calls[0].described()->0->Ok_0->0.matches(
            calls[i].updated()->0,
        ),
        i == 1 ==> change_follows(calls[0], calls[1]),
{
}

/// Among the calls for the names of a domain there is no authorization, and
/// every creation and every change comes right after the query that calls
/// for it.
proof fn lemma_names_follow_protocol(
    domain: DomainView,
    subdomains: Seq<SubDomainSettingsView>,
    calls: Seq<ProviderCall>,
    reports: Seq<SubdomainReportView>,
    i: int,
)
    requires
        reconciles_subdomains(domain, subdomains, calls, reports),
        0 <= i < calls.len(),
    ensures
        !(calls[i] is Authorize),
        calls[i] is CreateRecord ==> domain.create_new_record,
        calls[i] is CreateRecord || calls[i] is UpdateRecord ==> i >= 1 && change_follows(
            calls[i - 1],
            calls[i],
        ),
    decreases subdomains.len(),
{
    if subdomains.len() > 0 {
        let count = reports.last().outcome.call_count() as int;
        let cut = calls.len() - count;
        if i < cut {
            let earlier = calls.take(cut);
            lemma_names_follow_protocol(
                domain,
                subdomains.drop_last(),
                earlier,
                reports.drop_last(),
                i,
            );
            assert(earlier[i] == calls[i]);
            if i >= 1 {
                assert(earlier[i - 1] == calls[i - 1]);
            }
        } else {
            let last = calls.skip(cut);
            lemma_changes_follow_describe(
                domain.domain_name,
                domain.create_new_record,
                domain.ip_address,
                subdomains.last(),
                last,
                reports.last(),
                i - cut,
            );
            assert(last[i - cut] == calls[i]);
            assert(last[0] == calls[cut]);
        }
    }
}

/// In a run on a domain the provider is asked to authorize exactly once,
/// before anything else; a record is created only right after the provider
/// has said that it holds none for the name, and only where records are to be
/// created; and a record is changed only right after the provider has said
/// that it holds one for the name that does not match the wanted record.
pub proof fn lemma_run_follows_protocol(
    domain: DomainView,
    calls: Seq<ProviderCall>,
    outcome: DomainOutcomeView,
    i: int,
)
    requires
        reconciles_domain(domain, calls, outcome),
        0 <= i < calls.len(),
    ensures
        domain.enabled,
        calls[i] is Authorize <==> i == 0,
        calls[i] is CreateRecord ==> domain.create_new_record,
        calls[i] is CreateRecord || calls[i] is UpdateRecord ==> i >= 2 && change_follows(
            calls[i - 1],
            calls[i],
        ),
{
    if i >= 1 {
        let rest = calls.skip(1);
        let reports = outcome->Reconciled_0;
        lemma_names_follow_protocol(domain, domain.subdomains, rest, reports, i - 1);
        assert(rest[i - 1] == calls[i]);
        if i >= 2 {
            assert(rest[i - 2] == calls[i - 1]);
        }
    }
}

/// When the provider cannot say what it holds for a name, whether because it
/// holds more than one record or because it failed, nothing is created or
/// changed for that name.
pub proof fn lemma_failed_describe_changes_nothing(
    domain_name: Seq<char>,
    create_new_record: bool,
    ip_address: IpAddress,
    subdomain: SubDomainSettingsView,
    calls: Seq<ProviderCall>,
    report: SubdomainReportView,
)
    requires
        reconciles_subdomain(domain_name, create_new_record, ip_address, subdomain, calls, report),
        calls.len() >= 1,
        calls[0].described() is Some,
        calls[0].described()->0 is Err,
    ensures
        calls.len() == 1,
        report.outcome is DescribeFailed,
        forall|i: int|
            0 <= i < calls.len() ==> !(#[trigger] calls[i] is CreateRecord) && !(calls[i]
                is UpdateRecord),
{
}

/// Where the provider holds no record for a name and records are to be
/// created, exactly one record is created, the wanted one, and none is changed.
pub proof fn lemma_missing_record_is_created(
    domain_name: Seq<char>,
    ip_address: IpAddress,
    subdomain: SubDomainSettingsView,
    calls: Seq<ProviderCall>,
    report: SubdomainReportView,
)
    requires
        reconciles_subdomain(domain_name, true, ip_address, subdomain, calls, report),
        calls.len() >= 1,
        calls[0].described() == Some(Ok::<Option<RecordDetailView>, ApiErrorView>(None)),
    ensures
        calls.len() == 2,
        spec_published(ip_address, subdomain.interface_id) is Some,
        calls[1].created() == Some(
            spec_desired_record(
                domain_name,
                subdomain,
                spec_published(ip_address, subdomain.interface_id)->0.address,
            ),
        ),
        report.outcome is Created || report.outcome is CreateFailed,
{
}

/// Where the provider holds a record that matches the wanted one, nothing is
/// created or changed.
pub proof fn lemma_matching_record_is_left_alone(
    domain_name: Seq<char>,
    create_new_record: bool,
    ip_address: IpAddress,
    subdomain: SubDomainSettingsView,
    calls: Seq<ProviderCall>,
    report: SubdomainReportView,
    found: RecordDetailView,
)
    requires
        reconciles_subdomain(domain_name, create_new_record, ip_address, subdomain, calls, report),
        calls.len() >= 1,
        calls[0].described() == Some(Ok::<Option<RecordDetailView>, ApiErrorView>(Some(found))),
        spec_published(ip_address, subdomain.interface_id) is Some,
        found.matches(
            spec_desired_record(
                domain_name,
                subdomain,
                spec_published(ip_address, subdomain.interface_id)->0.address,
            ),
        ),
    ensures
        calls.len() == 1,
        report.outcome == SubdomainOutcomeView::Unchanged,
{
}

/// How many calls the first `k` reports stand for.
pub open spec fn calls_before(reports: Seq<SubdomainReportView>, k: int) -> int
    decreases k,
{
    if k <= 0 {
        0
    } else {
        calls_before(reports, k - 1) + reports[k - 1].outcome.call_count()
    }
}

/// The calls that the first reports stand for do not depend on the reports
/// after them.
proof fn lemma_calls_before_of_shorter(reports: Seq<SubdomainReportView>, k: int)
    requires
        reports.len() >= 1,
        k <= reports.len() - 1,
    ensures
        calls_before(reports.drop_last(), k) == calls_before(reports, k),
    decreases k,
{
    if k > 0 {
        lemma_calls_before_of_shorter(reports, k - 1);
        assert(reports.drop_last()[k - 1] == reports[k - 1]);
    }
}

/// The calls for the names of a domain are the calls for the first name,
/// then those for the second, and so on: the calls for the `k`-th name start
/// where those for the names before it end, and they and the `k`-th report are
/// what the work on that name gives.
pub proof fn lemma_name_has_its_calls(
    domain: DomainView,
    subdomains: Seq<SubDomainSettingsView>,
    calls: Seq<ProviderCall>,
    reports: Seq<SubdomainReportView>,
    k: int,
)
    requires
        reconciles_subdomains(domain, subdomains, calls, reports),
        0 <= k < subdomains.len(),
    ensures
        reports.len() == subdomains.len(),
        calls.len() == calls_before(reports, reports.len() as int),
        0 <= calls_before(reports, k),
        calls_before(reports, k + 1) <= calls.len(),
        reconciles_subdomain(
            domain.domain_name,
            domain.create_new_record,
            domain.ip_address,
            subdomains[k],
            calls.subrange(calls_before(reports, k), calls_before(reports, k + 1)),
            reports[k],
        ),
    decreases subdomains.len(),
{
    let n = subdomains.len() as int;
    let count = reports.last().outcome.call_count() as int;
    let cut = calls.len() - count;
    let earlier = calls.take(cut);
    lemma_calls_before_of_shorter(reports, n - 1);
    assert(reconciles_subdomains(domain, subdomains.drop_last(), earlier, reports.drop_last()));
    if n == 1 {
        assert(subdomains.drop_last().len() == 0);
        assert(earlier.len() == 0);
        assert(calls_before(reports.drop_last(), 0) == 0);
    } else {
        lemma_name_has_its_calls(
            domain,
            subdomains.drop_last(),
            earlier,
            reports.drop_last(),
            if k < n - 1 {
                k
            } else {
                0
            },
        );
    }
    assert(cut == calls_before(reports, n - 1));
    if k == n - 1 {
        assert(calls.subrange(cut, calls.len() as int) =~= calls.skip(cut));
    } else {
        lemma_calls_before_of_shorter(reports, k);
        lemma_calls_before_of_shorter(reports, k + 1);
        lemma_calls_before_grows(reports, k + 1, n - 1);
        let from = calls_before(reports, k);
        let to = calls_before(reports, k + 1);
        assert(earlier.subrange(from, to) =~= calls.subrange(from, to));
        assert(subdomains.drop_last()[k] == subdomains[k]);
        assert(reports.drop_last()[k] == reports[k]);
    }
}

/// The more reports, the more calls they stand for.
proof fn lemma_calls_before_grows(reports: Seq<SubdomainReportView>, i: int, j: int)
    requires
        i <= j,
    ensures
        calls_before(reports, i) <= calls_before(reports, j),
        0 <= calls_before(reports, i),
    decreases j - i, i,
{
    if i < j {
        lemma_calls_before_grows(reports, i, j - 1);
    } else if i > 0 {
        lemma_calls_before_grows(reports, i - 1, i - 1);
    }
}

/// In a run that worked on the names of a domain, the calls for the `k`-th
/// name come after the authorization and after the calls for the names before
/// it, and they and the `k`-th report are what the work on that name gives.
/// What holds of the calls for one name therefore holds of each name of a run.
pub proof fn lemma_run_holds_each_name(
    domain: DomainView,
    calls: Seq<ProviderCall>,
    reports: Seq<SubdomainReportView>,
    k: int,
)
    requires
        reconciles_domain(domain, calls, DomainOutcomeView::Reconciled(reports)),
        0 <= k < domain.subdomains.len(),
    ensures
        domain.enabled,
        reports.len() == domain.subdomains.len(),
        calls.len() == 1 + calls_before(reports, reports.len() as int),
        0 <= calls_before(reports, k),
        1 + calls_before(reports, k + 1) <= calls.len(),
        reconciles_subdomain(
            domain.domain_name,
            domain.create_new_record,
            domain.ip_address,
            domain.subdomains[k],
            calls.subrange(1 + calls_before(reports, k), 1 + calls_before(reports, k + 1)),
            reports[k],
        ),
{
    let rest = calls.skip(1);
    lemma_name_has_its_calls(domain, domain.subdomains, rest, reports, k);
    let from = calls_before(reports, k);
    let to = calls_before(reports, k + 1);
    assert(rest.subrange(from, to) =~= calls.subrange(1 + from, 1 + to));
}

/// Works on one name: asks the provider what it holds and creates or changes
/// the record where that is called for.
pub fn reconcile_subdomain<S: ApiInterface>(
    api_interface: &mut Recorded<S>,
    domain_name: &str,
    create_new_record: bool,
    ip_address: &IpAddress,
    subdomain: &SubDomainSettings,
) -> (report: SubdomainReport)
    ensures
        final(api_interface).calls().len() == old(api_interface).calls().len()
            + report@.outcome.call_count(),
        final(api_interface).calls().take(old(api_interface).calls().len() as int) == old(
            api_interface,
        ).calls(),
        reconciles_subdomain(
            domain_name@,
            create_new_record,
            *ip_address,
            subdomain@,
            final(api_interface).calls().skip(old(api_interface).calls().len() as int),
            report@,
        ),
{
    let ghost before = api_interface.calls();
    let name = full_domain_name(subdomain.name.as_str(), domain_name);
    let (address, prefix_ignored) = match ip_address {
        IpAddress::V4(_) => (*ip_address, false),
        IpAddress::V6(resolved) => match merge_interface_id(resolved, &subdomain.interface_id) {
            Some(merged) => (IpAddress::V6(merged.address), merged.prefix_ignored),
            None => {
                proof {
                    assert(api_interface.calls().skip(before.len() as int) =~= Seq::empty());
                    assert(api_interface.calls().take(before.len() as int) =~= before);
                }
                let text = match &subdomain.interface_id {
                    Some(text) => text.clone(),
                    None => String::new(),
                };
                return SubdomainReport {
                    full_domain_name: name,
                    address: None,
                    prefix_ignored: false,
                    outcome: SubdomainOutcome::InvalidInterfaceId(text),
                };
            },
        },
    };
    let desired = RecordDetail {
        subdomain_name: subdomain.name.clone(),
        base_domain_name: domain_name.to_owned(),
        ttl: subdomain.ttl,
        proxied: subdomain.proxied,
        ip_addr: address,
    };
    let described = api_interface.describe(
        subdomain.name.as_str(),
        domain_name,
        RecordType::from(*ip_address),
    );
    let ghost after_describe = api_interface.calls();
    let actual = match described {
        Ok(actual) => actual,
        Err(reason) => {
            proof {
                assert(after_describe.skip(before.len() as int) =~= seq![after_describe.last()]);
                assert(after_describe.take(before.len() as int) =~= before);
            }
            return SubdomainReport {
                full_domain_name: name,
                address: Some(address),
                prefix_ignored,
                outcome: SubdomainOutcome::DescribeFailed(reason),
            };
        },
    };
    let outcome = match decide(&actual, &desired, create_new_record) {
        Action::Skip => {
            proof {
                assert(after_describe.skip(before.len() as int) =~= seq![after_describe.last()]);
                assert(after_describe.take(before.len() as int) =~= before);
            }
            if actual.is_none() {
                SubdomainOutcome::Missing
            } else {
                SubdomainOutcome::Unchanged
            }
        },
        Action::Create => {
            let answer = api_interface.create(desired);
            proof {
                let now = api_interface.calls();
                assert(now.skip(before.len() as int) =~= seq![after_describe.last(), now.last()]);
                assert(now.take(before.len() as int) =~= before);
            }
            match answer {
                Ok(_) => SubdomainOutcome::Created,
                Err(reason) => SubdomainOutcome::CreateFailed(reason),
            }
        },
        Action::Update => {
            let answer = api_interface.update(desired);
            proof {
                let now = api_interface.calls();
                assert(now.skip(before.len() as int) =~= seq![after_describe.last(), now.last()]);
                assert(now.take(before.len() as int) =~= before);
            }
            match answer {
                Ok(_) => SubdomainOutcome::Updated,
                Err(reason) => SubdomainOutcome::UpdateFailed(reason),
            }
        },
    };
    SubdomainReport { full_domain_name: name, address: Some(address), prefix_ignored, outcome }
}

/// The reconciler of one domain: the settings of the domain, the address of
/// the host and the provider that holds the records.
pub struct DomainRecordChanger<S> where S: ApiInterface {
    enabled: bool,
    domain_name: String,
    record_type: RecordType,
    create_new_record: bool,
    subdomains: Vec<SubDomainSettings>,
    ip_address: IpAddress,
    api_interface: Recorded<S>,
}

impl<S> DomainRecordChanger<S> where S: ApiInterface {
    /// What the reconciler was told about its domain. The provider and the
    /// calls made on it are not part of it: `provider` and `calls` tell them.
    pub closed spec fn view(&self) -> DomainView {
        DomainView {
            enabled: self.enabled,
            domain_name: self.domain_name@,
            record_type: self.record_type,
            create_new_record: self.create_new_record,
            subdomains: subdomain_views(self.subdomains@),
            ip_address: self.ip_address,
        }
    }

    /// The calls that the reconciler has made on its provider, oldest first.
    pub closed spec fn calls(&self) -> Seq<ProviderCall> {
        self.api_interface.calls()
    }

    /// The provider as it is now.
    pub closed spec fn provider(&self) -> S {
        self.api_interface.provider()
    }

    /// Returns a reconciler for the domain. Nothing has been asked of the
    /// provider yet.
    pub fn new(settings: SingleDomainSettings, ip_address: IpAddress, api_interface: S) -> (r: Self)
        ensures
            r@ == (DomainView {
                enabled: settings.enabled,
                domain_name: settings.domain_name@,
                record_type: settings.record_type,
                create_new_record: settings.create_new_record,
                subdomains: subdomain_views(settings.subdomains@),
                ip_address,
            }),
            r.calls() == Seq::<ProviderCall>::empty(),
            r.provider() == api_interface,
    {
        DomainRecordChanger {
            enabled: settings.enabled,
            domain_name: settings.domain_name,
            record_type: settings.record_type,
            create_new_record: settings.create_new_record,
            subdomains: settings.subdomains,
            ip_address,
            api_interface: Recorded::new(api_interface),
        }
    }

    /// Runs once over the domain and returns what was done.
    ///
    /// The settings stay as they are. The calls made on the provider come
    /// after those made before, and together with the outcome they are what
    /// `reconciles_domain` describes. In particular a domain that is switched
    /// off asks nothing of the provider.
    pub fn start_ddns(&mut self) -> (outcome: DomainOutcome)
        ensures
            final(self)@ == old(self)@,
            final(self).calls().len() >= old(self).calls().len(),
            final(self).calls().take(old(self).calls().len() as int) == old(self).calls(),
            reconciles_domain(
                old(self)@,
                final(self).calls().skip(old(self).calls().len() as int),
                outcome@,
            ),
            !old(self)@.enabled ==> final(self).calls() == old(self).calls(),
    {
        let ghost before = self.calls();
        let ghost domain = self@;
        if !self.enabled {
            proof {
                assert(self.calls().skip(before.len() as int) =~= Seq::empty());
                assert(self.calls().take(before.len() as int) =~= before);
            }
            return DomainOutcome::Disabled;
        }
        match self.api_interface.authorize() {
            Ok(_) => {},
            Err(reason) => {
                proof {
                    assert(self.calls().skip(before.len() as int) =~= seq![self.calls().last()]);
                    assert(self.calls().take(before.len() as int) =~= before);
                }
                return DomainOutcome::AuthorizationFailed(reason);
            },
        }
        let ghost authorized = self.calls();
        let mut reports: Vec<SubdomainReport> = Vec::new();
        let mut i: usize = 0;
        proof {
            assert(authorized.skip(authorized.len() as int) =~= Seq::empty());
            assert(domain.subdomains.take(0) =~= Seq::empty());
        }
        while i < self.subdomains.len()
            invariant
                i <= self.subdomains.len(),
                self@ == domain,
                domain.enabled,
                authorized == before.push(authorized.last()),
                self.calls().len() >= authorized.len(),
                self.calls().take(authorized.len() as int) == authorized,
                reports.len() == i,
                reconciles_subdomains(
                    domain,
                    domain.subdomains.take(i as int),
                    self.calls().skip(authorized.len() as int),
                    report_views(reports@),
                ),
            decreases self.subdomains.len() - i,
        {
            let ghost earlier = self.calls();
            let ghost earlier_reports = report_views(reports@);
            let report = reconcile_subdomain(
                &mut self.api_interface,
                self.domain_name.as_str(),
                self.create_new_record,
                &self.ip_address,
                &self.subdomains[i],
            );
            reports.push(report);
            proof {
                let now = self.calls();
                let made = now.skip(authorized.len() as int);
                let count = report@.outcome.call_count();
                let names = domain.subdomains.take(i + 1);
                let views = report_views(reports@);
                assert(views.last() == report@);
                assert(views.drop_last() =~= earlier_reports);
                assert(names.last() == self.subdomains[i as int]@);
                assert(names.drop_last() =~= domain.subdomains.take(i as int));
                assert(made.len() == now.len() - authorized.len());
                assert(made.skip(made.len() - count) =~= now.skip(earlier.len() as int));
                assert(now.take(earlier.len() as int).skip(authorized.len() as int) =~= made.take(
                    made.len() - count,
                ));
                assert(now.take(authorized.len() as int) =~= now.take(earlier.len() as int).take(
                    authorized.len() as int,
                ));
            }
            i += 1;
        }
        proof {
            let now = self.calls();
            assert(domain.subdomains.take(i as int) =~= domain.subdomains);
            assert(now.take(before.len() as int) =~= now.take(authorized.len() as int).take(
                before.len() as int,
            ));
            assert(authorized.take(before.len() as int) =~= before);
            let made = now.skip(before.len() as int);
            assert(made[0] == authorized.last());
            assert(made.skip(1) =~= now.skip(authorized.len() as int));
        }
        DomainOutcome::Reconciled(reports)
    }

    /// Gives up the reconciler and hands its provider back, as the calls
    /// have left it.
    pub fn into_api_interface(self) -> (provider: S)
        ensures
            provider == self.provider(),
    {
        self.api_interface.into_inner()
    }
}

} // verus!
