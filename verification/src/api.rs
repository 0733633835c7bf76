//! What a DNS-hosting provider is asked to do, whichever provider it is.

pub mod cloudflare;
pub mod recorded;

use crate::address::IpAddress;
use crate::api::cloudflare::CloudflareInterfaceBuildConfig;
use crate::config::RecordType;
use vstd::prelude::*;
use vstd::string::{StrSliceExecFns, StringExecFns};

verus! {

/// The providers that are supported, each with what an instance of it is
/// built from.
#[derive(Debug)]
pub enum ServiceProvider {
    Cloudflare(CloudflareInterfaceBuildConfig),
}

impl Clone for ServiceProvider {
    fn clone(&self) -> (r: Self)
        ensures
            match (*self, r) {
                (ServiceProvider::Cloudflare(a), ServiceProvider::Cloudflare(b)) => a.zone_id@
                    == b.zone_id@ && a.api_token@ == b.api_token@,
            },
    {
        match self {
            ServiceProvider::Cloudflare(config) => ServiceProvider::Cloudflare(config.clone()),
        }
    }
}

/// Whether a label stands for the domain itself: it is `"@"` or empty.
pub open spec fn is_apex(subdomain: Seq<char>) -> bool {
    subdomain.len() == 0 || (subdomain.len() == 1 && subdomain[0] == '@')
}

/// The fully-qualified name of a label under a domain: the domain itself for
/// the apex, else the label, a dot and the domain.
pub open spec fn spec_full_domain_name(subdomain: Seq<char>, base_domain: Seq<char>) -> Seq<char> {
    if is_apex(subdomain) {
        base_domain
    } else {
        subdomain + seq!['.'] + base_domain
    }
}

/// Returns the fully-qualified name of a label under a domain.
pub fn full_domain_name(subdomain: &str, base_domain: &str) -> (name: String)
    ensures
        name@ == spec_full_domain_name(subdomain@, base_domain@),
        is_apex(subdomain@) ==> name@ == base_domain@,
        !is_apex(subdomain@) ==> name@ == subdomain@ + seq!['.'] + base_domain@,
{
    let apex = subdomain.is_empty() || (subdomain.unicode_len() == 1 && subdomain.get_char(0)
        == '@');
    if apex {
        base_domain.to_owned()
    } else {
        let mut name = subdomain.to_owned();
        proof {
            reveal_strlit(".");
            assert("."@ =~= seq!['.']);
        }
        name.append(".");
        name.append(base_domain);
        name
    }
}

/// One DNS record, in the shape that every provider understands. It is both
/// the record that is wanted and the record that a provider reports.
#[derive(Debug)]
pub struct RecordDetail {
    pub subdomain_name: String,
    pub base_domain_name: String,
    pub ttl: u32,
    /// Whether the provider proxies traffic to the record. `None` stands for
    /// "not known" or "not cared about".
    pub proxied: Option<bool>,
    pub ip_addr: IpAddress,
}

/// The mathematical value of a `RecordDetail`.
pub struct RecordDetailView {
    pub subdomain_name: Seq<char>,
    pub base_domain_name: Seq<char>,
    pub ttl: u32,
    pub proxied: Option<bool>,
    pub ip_addr: IpAddress,
}

impl View for RecordDetail {
    type V = RecordDetailView;

    open spec fn view(&self) -> RecordDetailView {
        RecordDetailView {
            subdomain_name: self.subdomain_name@,
            base_domain_name: self.base_domain_name@,
            ttl: self.ttl,
            proxied: self.proxied,
            ip_addr: self.ip_addr,
        }
    }
}

impl RecordDetailView {
    /// Whether two records count as the same record: names, time to live and
    /// address are equal, and the `proxied` flags are equal or one of them is
    /// absent.
    pub open spec fn matches(self, other: RecordDetailView) -> bool {
        &&& self.subdomain_name == other.subdomain_name
        &&& self.base_domain_name == other.base_domain_name
        &&& self.ttl == other.ttl
        &&& (self.proxied is None || other.proxied is None || self.proxied == other.proxied)
        &&& self.ip_addr == other.ip_addr
    }
}

impl PartialEq for RecordDetail {
    /// Compares two records, with an absent `proxied` flag standing for any value.
    fn eq(&self, other: &Self) -> (r: bool) {
        let subdomain_name_eq = self.subdomain_name == other.subdomain_name;
        let base_domain_name_eq = self.base_domain_name == other.base_domain_name;
        let ttl_eq = self.ttl == other.ttl;
        let proxied_eq = self.proxied.is_none() || other.proxied.is_none() || self.proxied
            == other.proxied;
        let ip_addr_eq = self.ip_addr == other.ip_addr;
        subdomain_name_eq && base_domain_name_eq && ttl_eq && proxied_eq && ip_addr_eq
    }
}

impl vstd::std_specs::cmp::PartialEqSpecImpl for RecordDetail {
    open spec fn obeys_eq_spec() -> bool {
        true
    }

    open spec fn eq_spec(&self, other: &Self) -> bool {
        self@.matches(other@)
    }
}

impl Clone for RecordDetail {
    fn clone(&self) -> (r: Self)
        ensures
            r@ == self@,
    {
        RecordDetail {
            subdomain_name: self.subdomain_name.clone(),
            base_domain_name: self.base_domain_name.clone(),
            ttl: self.ttl,
            proxied: self.proxied,
            ip_addr: self.ip_addr,
        }
    }
}

/// Every record matches itself.
pub proof fn lemma_matches_reflexive(a: RecordDetailView)
    ensures
        a.matches(a),
{
}

/// If one record matches another, the other matches the first.
pub proof fn lemma_matches_symmetric(a: RecordDetailView, b: RecordDetailView)
    ensures
        a.matches(b) == b.matches(a),
{
}

/// A record without a `proxied` flag matches every record that agrees with it
/// in names, time to live and address, whatever that record's flag is.
pub proof fn lemma_absent_proxied_matches_any(a: RecordDetailView, b: RecordDetailView)
    requires
        a.proxied is None,
        a.subdomain_name == b.subdomain_name,
        a.base_domain_name == b.base_domain_name,
        a.ttl == b.ttl,
        a.ip_addr == b.ip_addr,
    ensures
        a.matches(b),
        b.matches(a),
{
}

/// Two records that both carry a `proxied` flag match only if the flags agree.
pub proof fn lemma_present_proxied_must_agree(a: RecordDetailView, b: RecordDetailView)
    requires
        a.proxied is Some,
        b.proxied is Some,
        a.proxied != b.proxied,
    ensures
        !a.matches(b),
{
}

/// The kinds of failure of a provider.
#[derive(Debug, Clone, Copy, PartialEq, Eq, Structural)]
pub enum ErrorKind {
    /// The provider did not accept the instance.
    Authorization,
    /// The provider holds more than one record of the type for a name. The
    /// records have drifted from what this program keeps; nothing is guessed.
    DescribeAmbiguous,
    /// The request could not be sent or the answer not received.
    Transport,
    /// The answer of the provider could not be read.
    Decode,
    /// The provider answered that the operation failed.
    ProviderApi,
    /// A record was to be changed that had not been asked for before.
    Misuse,
}

/// How much a failure matters to whoever reads the log.
#[derive(Debug, Clone, Copy, PartialEq, Eq, Structural)]
pub enum Severity {
    Warning,
    Error,
}

impl ErrorKind {
    /// How much a failure of the kind matters: more than one record for a
    /// name is a warning, everything else is an error.
    pub open spec fn spec_severity(self) -> Severity {
        match self {
            ErrorKind::DescribeAmbiguous => Severity::Warning,
            _ => Severity::Error,
        }
    }

    /// Returns how much a failure of the kind matters.
    pub fn severity(&self) -> (r: Severity)
        ensures
            r == self.spec_severity(),
            r == Severity::Warning <==> *self == ErrorKind::DescribeAmbiguous,
    {
        match self {
            ErrorKind::DescribeAmbiguous => Severity::Warning,
            _ => Severity::Error,
        }
    }
}

/// A failure of a provider: its kind, and the reason in words.
#[derive(Debug)]
pub struct ApiError {
    pub kind: ErrorKind,
    pub message: String,
}

/// The mathematical value of an `ApiError`.
pub struct ApiErrorView {
    pub kind: ErrorKind,
    pub message: Seq<char>,
}

impl View for ApiError {
    type V = ApiErrorView;

    open spec fn view(&self) -> ApiErrorView {
        ApiErrorView { kind: self.kind, message: self.message@ }
    }
}

impl Clone for ApiError {
    fn clone(&self) -> (r: Self)
        ensures
            r@ == self@,
    {
        ApiError { kind: self.kind, message: self.message.clone() }
    }
}

/// One call on a provider, with what was handed to it and what it answered.
#[allow(inconsistent_fields)]
pub enum ProviderCall {
    Authorize { outcome: Result<(), ApiErrorView> },
    DescribeRecord {
        subdomain_name: Seq<char>,
        base_domain_name: Seq<char>,
        record_type: RecordType,
        outcome: Result<Option<RecordDetailView>, ApiErrorView>,
    },
    CreateRecord { record: RecordDetailView, outcome: Result<(), ApiErrorView> },
    UpdateRecord { record: RecordDetailView, outcome: Result<(), ApiErrorView> },
}

impl ProviderCall {
    /// What the provider said it holds, where the call asked for that.
    pub open spec fn described(self) -> Option<Result<Option<RecordDetailView>, ApiErrorView>> {
        match self {
            ProviderCall::DescribeRecord { outcome, .. } => Some(outcome),
            _ => None,
        }
    }

    /// The record that the call was to create, where it was to create one.
    pub open spec fn created(self) -> Option<RecordDetailView> {
        match self {
            ProviderCall::CreateRecord { record, .. } => Some(record),
            _ => None,
        }
    }

    /// The record that the call was to change another to, where it was to
    /// change one.
    pub open spec fn updated(self) -> Option<RecordDetailView> {
        match self {
            ProviderCall::UpdateRecord { record, .. } => Some(record),
            _ => None,
        }
    }
}

/// Whether `change` is a creation or a change that may come right after
/// `query`: `query` asked what the provider holds for the name of the record,
/// and the answer was that it holds none, for a creation, or that it holds one
/// that does not match the record, for a change.
pub open spec fn change_follows(query: ProviderCall, change: ProviderCall) -> bool {
    match query {
        ProviderCall::DescribeRecord {
            subdomain_name,
            base_domain_name,
            outcome,
            ..
        } => match change {
            ProviderCall::CreateRecord { record, .. } => {
                &&& outcome == Ok::<Option<RecordDetailView>, ApiErrorView>(None)
                &&& record.subdomain_name == subdomain_name
                &&& record.base_domain_name == base_domain_name
            },
            ProviderCall::UpdateRecord { record, .. } => {
                &&& outcome is Ok
                &&& outcome->Ok_0 is Some
                &&& !outcome->Ok_0->0.matches(record)
                &&& record.subdomain_name == subdomain_name
                &&& record.base_domain_name == base_domain_name
            },
            _ => false,
        },
        _ => false,
    }
}

/// The mathematical value of the answer to a call that hands nothing back.
pub open spec fn plain_outcome(r: Result<(), ApiError>) -> Result<(), ApiErrorView> {
    match r {
        Ok(_) => Ok(()),
        Err(error) => Err(error@),
    }
}

/// The mathematical value of the answer to `describe_record`.
pub open spec fn describe_outcome(r: Result<Option<RecordDetail>, ApiError>) -> Result<
    Option<RecordDetailView>,
    ApiErrorView,
> {
    match r {
        Ok(Some(detail)) => Ok(Some(detail@)),
        Ok(None) => Ok(None),
        Err(error) => Err(error@),
    }
}

/// What the reconciler needs of a DNS-hosting provider.
///
/// The reconciler calls `authorize` once, before anything else. For each
/// fully-qualified name it calls `describe_record` once, and only then, and at
/// most once, `create_record` or `update_record`: the first only if no record
/// was found, the second only if exactly one was. An implementation may
/// therefore keep what `describe_record` learnt (a record identifier) for the
/// call that follows.
///
/// Nothing is promised of what a method returns: whether a call succeeds is
/// the provider's business. A failure names its kind, so that whoever reads
/// of it can tell what calls for a warning from what is an error.
pub trait ApiInterface: Sized {
    /// What an instance is built from: the provider's part of the settings.
    type BuildConfigType: Clone;

    /// Returns a new instance.
    fn new(config: Self::BuildConfigType) -> Self;

    /// Makes the instance known to the provider.
    fn authorize(&mut self) -> Result<(), ApiError>;

    /// Returns the record of the given type that the provider holds for the
    /// name, or `None` if it holds none. More than one record for the name is
    /// an error, as is a failure of the provider.
    fn describe_record(
        &mut self,
        subdomain_name: &str,
        base_domain_name: &str,
        record_type: RecordType,
    ) -> Result<Option<RecordDetail>, ApiError>;

    /// Creates the record. The record type follows from the address.
    fn create_record(&self, record_detail: RecordDetail) -> Result<(), ApiError>;

    /// Changes the record that `describe_record` found to the given content.
    fn update_record(&self, record_detail: RecordDetail) -> Result<(), ApiError>;
}

} // verus!
