//! The Cloudflare provider: what is sent to its REST interface and what its
//! answers mean.
//!
//! Nothing here sends anything. For each of the three operations there is a
//! function that puts the request together and a function that reads the
//! decoded answer; whoever owns the connection sends the one and hands back
//! the other.

pub mod request;
pub mod response;

use crate::address::format::{format_ip, spec_format_ip};
use crate::address::parse::{parse_ip, spec_parse_ip};
use crate::address::round_trip::lemma_ip_text_reads_back;
use crate::api::cloudflare::response::{
    clone_pairs, pair_views, pairs_text, push_pairs_text, CodeMessagePair, CodeMessagePairView,
};
use crate::api::{
    full_domain_name, is_apex, spec_full_domain_name, ApiError, ApiErrorView, ErrorKind,
    RecordDetail, RecordDetailView,
};
use crate::config::RecordType;
use vstd::hash_map::StringHashMap;
use vstd::prelude::*;
use vstd::string::{StrSliceExecFns, StringExecFns};

verus! {

/// What a Cloudflare instance is built from.
#[derive(Debug)]
pub struct CloudflareInterfaceBuildConfig {
    /// The identifier of the zone that holds the records.
    pub zone_id: String,
    /// The token that authorizes changes to the zone.
    pub api_token: String,
}

impl Clone for CloudflareInterfaceBuildConfig {
    fn clone(&self) -> (r: Self)
        ensures
            r.zone_id@ == self.zone_id@,
            r.api_token@ == self.api_token@,
    {
        CloudflareInterfaceBuildConfig {
            zone_id: self.zone_id.clone(),
            api_token: self.api_token.clone(),
        }
    }
}

/// The three things that are asked of the provider.
#[derive(Debug, Clone, Copy, PartialEq, Eq, Structural)]
pub enum Operation {
    Describe,
    Create,
    Update,
}

impl Operation {
    /// The operation in words, as a message starts with it.
    pub open spec fn spec_title(self) -> Seq<char> {
        match self {
            Operation::Describe => "Describe"@,
            Operation::Create => "Create"@,
            Operation::Update => "Update"@,
        }
    }

    /// Returns the operation in words, as a message starts with it.
    pub fn title(&self) -> (r: &'static str)
        ensures
            r@ == self.spec_title(),
    {
        match self {
            Operation::Describe => "Describe",
            Operation::Create => "Create",
            Operation::Update => "Update",
        }
    }
}

/// Why an operation failed, as far as that shows without touching the network.
#[derive(Debug)]
pub enum CloudflareError {
    /// The address of the request could not be put together, for the reason given.
    Url(String),
    /// The provider answered that the operation failed; its errors are kept
    /// as they came.
    Api { operation: Operation, errors: Vec<CodeMessagePair> },
    /// The provider holds more than one record of the type for the name.
    Ambiguous { record_type: RecordType, full_domain_name: String },
    /// The content of the record that the provider holds is no address.
    InvalidAddress(String),
    /// The provider created a record under another name than the one asked for.
    NameMismatch { returned: String, requested: String },
    /// A record is to be changed that was not asked for before, so its
    /// identifier is not known.
    MissingRecordId(String),
    /// The request could not be sent or the answer not received, for the
    /// reason given.
    Transport { operation: Operation, reason: String },
    /// The body of a request could not be encoded or the answer not decoded,
    /// for the reason given.
    Decode { operation: Operation, reason: String },
}

/// The mathematical value of a `CloudflareError`.
pub enum CloudflareErrorView {
    Url(Seq<char>),
    Api { operation: Operation, errors: Seq<CodeMessagePairView> },
    Ambiguous { record_type: RecordType, full_domain_name: Seq<char> },
    InvalidAddress(Seq<char>),
    NameMismatch { returned: Seq<char>, requested: Seq<char> },
    MissingRecordId(Seq<char>),
    Transport { operation: Operation, reason: Seq<char> },
    Decode { operation: Operation, reason: Seq<char> },
}

impl View for CloudflareError {
    type V = CloudflareErrorView;

    open spec fn view(&self) -> CloudflareErrorView {
        match *self {
            CloudflareError::Url(reason) => CloudflareErrorView::Url(reason@),
            CloudflareError::Api { operation, errors } => CloudflareErrorView::Api {
                operation,
                errors: pair_views(errors@),
            },
            CloudflareError::Ambiguous {
                record_type,
                full_domain_name,
            } => CloudflareErrorView::Ambiguous { record_type, full_domain_name: full_domain_name@ },
            CloudflareError::InvalidAddress(content) => CloudflareErrorView::InvalidAddress(
                content@,
            ),
            CloudflareError::NameMismatch {
                returned,
                requested,
            } => CloudflareErrorView::NameMismatch { returned: returned@, requested: requested@ },
            CloudflareError::MissingRecordId(name) => CloudflareErrorView::MissingRecordId(name@),
            CloudflareError::Transport { operation, reason } => CloudflareErrorView::Transport {
                operation,
                reason: reason@,
            },
            CloudflareError::Decode { operation, reason } => CloudflareErrorView::Decode {
                operation,
                reason: reason@,
            },
        }
    }
}

impl CloudflareErrorView {
    /// The kind of failure that the error is for the reconciler.
    pub open spec fn kind(self) -> ErrorKind {
        match self {
            CloudflareErrorView::Url(_) => ErrorKind::Transport,
            CloudflareErrorView::Api { .. } => ErrorKind::ProviderApi,
            CloudflareErrorView::Ambiguous { .. } => ErrorKind::DescribeAmbiguous,
            CloudflareErrorView::InvalidAddress(_) => ErrorKind::Decode,
            CloudflareErrorView::NameMismatch { .. } => ErrorKind::ProviderApi,
            CloudflareErrorView::MissingRecordId(_) => ErrorKind::Misuse,
            CloudflareErrorView::Transport { .. } => ErrorKind::Transport,
            CloudflareErrorView::Decode { .. } => ErrorKind::Decode,
        }
    }

    /// The error in words.
    pub open spec fn message(self) -> Seq<char> {
        match self {
            CloudflareErrorView::Url(reason) => "Error parsing url with params: "@ + reason,
            CloudflareErrorView::Api { operation, errors } => operation.spec_title()
                + " record api failed: "@ + pairs_text(errors),
            CloudflareErrorView::Ambiguous {
                record_type,
                full_domain_name,
            } => "More than 1 record exists for "@ + record_type.spec_name() + " record of "@
                + full_domain_name + "."@,
            CloudflareErrorView::InvalidAddress(
                content,
            ) => "The address that the api returned is no IP address: "@ + content,
            CloudflareErrorView::NameMismatch {
                returned,
                requested,
            } => "Api returned domain name "@ + returned
                + " which differs from the requested domain name "@ + requested,
            CloudflareErrorView::MissingRecordId(name) => "No record id cache for "@ + name,
            CloudflareErrorView::Transport { operation, reason } => operation.spec_title()
                + " record request failed: "@ + reason,
            CloudflareErrorView::Decode { operation, reason } => operation.spec_title()
                + " record coding failed: "@ + reason,
        }
    }
}

impl CloudflareError {
    /// Returns the kind of failure that the error is for the reconciler.
    pub fn kind(&self) -> (kind: ErrorKind)
        ensures
            kind == self@.kind(),
    {
        match self {
            CloudflareError::Url(_) => ErrorKind::Transport,
            CloudflareError::Api { .. } => ErrorKind::ProviderApi,
            CloudflareError::Ambiguous { .. } => ErrorKind::DescribeAmbiguous,
            CloudflareError::InvalidAddress(_) => ErrorKind::Decode,
            CloudflareError::NameMismatch { .. } => ErrorKind::ProviderApi,
            CloudflareError::MissingRecordId(_) => ErrorKind::Misuse,
            CloudflareError::Transport { .. } => ErrorKind::Transport,
            CloudflareError::Decode { .. } => ErrorKind::Decode,
        }
    }

    /// Returns the error as the reconciler is told of it: its kind, and the
    /// error in words.
    pub fn to_api_error(&self) -> (error: ApiError)
        ensures
            error@ == (ApiErrorView { kind: self@.kind(), message: self@.message() }),
    {
        ApiError { kind: self.kind(), message: self.message() }
    }

    /// Returns the error in words.
    pub fn message(&self) -> (text: String)
        ensures
            text@ == self@.message(),
    {
        match self {
            CloudflareError::Url(reason) => {
                let mut text = String::from_str("Error parsing url with params: ");
                text.append(reason.as_str());
                text
            },
            CloudflareError::Api { operation, errors } => {
                let mut text = String::from_str(operation.title());
                text.append(" record api failed: ");
                push_pairs_text(&mut text, errors);
                text
            },
            CloudflareError::Ambiguous { record_type, full_domain_name } => {
                let mut text = String::from_str("More than 1 record exists for ");
                text.append(record_type.name());
                text.append(" record of ");
                text.append(full_domain_name.as_str());
                text.append(".");
                text
            },
            CloudflareError::InvalidAddress(content) => {
                let mut text = String::from_str(
                    "The address that the api returned is no IP address: ",
                );
                text.append(content.as_str());
                text
            },
            CloudflareError::NameMismatch { returned, requested } => {
                let mut text = String::from_str("Api returned domain name ");
                text.append(returned.as_str());
                text.append(" which differs from the requested domain name ");
                text.append(requested.as_str());
                text
            },
            CloudflareError::MissingRecordId(name) => {
                let mut text = String::from_str("No record id cache for ");
                text.append(name.as_str());
                text
            },
            CloudflareError::Transport { operation, reason } => {
                let mut text = String::from_str(operation.title());
                text.append(" record request failed: ");
                text.append(reason.as_str());
                text
            },
            CloudflareError::Decode { operation, reason } => {
                let mut text = String::from_str(operation.title());
                text.append(" record coding failed: ");
                text.append(reason.as_str());
                text
            },
        }
    }
}

/// How a request is made.
#[derive(Debug, Clone, Copy, PartialEq, Eq, Structural)]
pub enum Method {
    Get,
    Post,
    Put,
}

/// One header of a request.
#[derive(Debug)]
pub struct Header {
    pub name: String,
    pub value: String,
}

/// A request, ready to be sent. `B` is what the body is made from.
#[derive(Debug)]
pub struct ApiRequest<B> {
    pub method: Method,
    pub url: String,
    pub headers: Vec<Header>,
    pub body: B,
}

/// The address under which the records of a zone are found.
pub open spec fn spec_records_url(zone_id: Seq<char>) -> Seq<char> {
    "https://api.cloudflare.com/client/v4/zones/"@ + zone_id + "/dns_records"@
}

/// The address under which one record of a zone is found.
pub open spec fn spec_record_url(zone_id: Seq<char>, record_id: Seq<char>) -> Seq<char> {
    spec_records_url(zone_id) + "/"@ + record_id
}

/// The value of the header that authorizes a request.
pub open spec fn spec_bearer(api_token: Seq<char>) -> Seq<char> {
    "Bearer "@ + api_token
}

/// The parameters that select the records of one name and type.
pub open spec fn spec_describe_params(full_domain_name: Seq<char>, record_type: RecordType) -> Seq<
    (Seq<char>, Seq<char>),
> {
    seq![("name"@, full_domain_name), ("type"@, record_type.spec_name())]
}

/// Whether the headers are the one that authorizes the request and nothing else.
pub open spec fn only_authorization(headers: Seq<Header>, api_token: Seq<char>) -> bool {
    &&& headers.len() == 1
    &&& headers[0].name@ == "Authorization"@
    &&& headers[0].value@ == spec_bearer(api_token)
}

/// Whether the headers are the one that authorizes the request and the one
/// that says that the body is JSON.
pub open spec fn authorization_and_json(headers: Seq<Header>, api_token: Seq<char>) -> bool {
    &&& headers.len() == 2
    &&& headers[0].name@ == "Authorization"@
    &&& headers[0].value@ == spec_bearer(api_token)
    &&& headers[1].name@ == "Content-Type"@
    &&& headers[1].value@ == "application/json"@
}

/// The absolute URL that `input` stands for, with the parameters added to
/// its query string; or, where `input` is no absolute URL, the reason in words.
pub uninterp spec fn url_with_params(
    input: Seq<char>,
    params: Seq<(Seq<char>, Seq<char>)>,
) -> Result<Seq<char>, Seq<char>>;

/// The mathematical value of a text or a reason.
pub open spec fn text_result_view(r: Result<String, String>) -> Result<Seq<char>, Seq<char>> {
    match r {
        Ok(text) => Ok(text@),
        Err(reason) => Err(reason@),
    }
}

/// The mathematical values of a list of parameters.
pub open spec fn param_views(params: Seq<(String, String)>) -> Seq<(Seq<char>, Seq<char>)> {
    Seq::new(params.len(), |i: int| (params[i].0@, params[i].1@))
}

/// The longest zone identifier, label or domain name, in characters, that is
/// put into the address of a request: two to the power of 26.
///
/// The URL type cannot hold a text of more than four gigabytes, and a
/// character takes at most twelve bytes in a URL. Three parts of this length,
/// with what stands around them, stay below that.
pub const MAX_URL_PART: usize = 0x400_0000;

/// Whether the text is short enough to be put into the address of a request.
pub open spec fn fits_in_url(text: Seq<char>) -> bool {
    text.len() <= MAX_URL_PART
}

/// The characters that a parameter adds to a URL: its name, its value and
/// the two signs that set them apart. Nothing for a parameter that is not there.
pub open spec fn param_chars(params: Seq<(Seq<char>, Seq<char>)>, i: int) -> nat {
    if 0 <= i < params.len() {
        params[i].0.len() + params[i].1.len() + 2
    } else {
        0
    }
}

/// Calls `reqwest::Url::parse_with_params`, which reads `input` as an
/// absolute URL and adds the parameters to its query string, escaping them as
/// a form does. What comes back is the URL as text, or the reason why
/// `input` is no absolute URL. Nothing is claimed of the result but that it
/// depends on the arguments alone.
///
/// The URL type gives up on a text of more than four gigabytes. A character
/// takes at most twelve bytes in a URL, so the arguments are asked to have
/// no more characters than fit into four gigabytes twelve times.
#[verifier::external_body]
fn parse_url_with_params(input: &str, params: &Vec<(String, String)>) -> (r: Result<String, String>)
    requires
        params@.len() <= 2,
        12 * (input@.len() + param_chars(param_views(params@), 0) + param_chars(
            param_views(params@),
            1,
        )) <= 0xffff_ffff,
    ensures
        text_result_view(r) == url_with_params(input@, param_views(params@)),
{
    match reqwest::Url::parse_with_params(input, params) {
        Ok(url) => Ok(String::from(url)),
        Err(reason) => Err(reason.to_string()),
    }
}

/// The mathematical value of a `CloudflareInterface`.
pub struct CloudflareInterfaceView {
    pub zone_id: Seq<char>,
    pub api_token: Seq<char>,
    /// The identifiers of the records that were found, by fully-qualified name.
    pub record_ids: Map<Seq<char>, Seq<char>>,
}

/// The state of a conversation with Cloudflare about one zone: the zone and
/// the token, and the identifiers of the records that were found so far.
pub struct CloudflareInterface {
    config: CloudflareInterfaceBuildConfig,
    record_id_cache: StringHashMap<String>,
}

/// The record that the provider is found to hold for a name, given the
/// decoded answer to the query for it.
///
/// An answer that reports failure is an error that carries the provider's
/// errors. Else no record gives `None`, one record gives that record, if its
/// content is an address, and more than one record is an error.
pub open spec fn spec_describe(
    subdomain_name: Seq<char>,
    base_domain_name: Seq<char>,
    record_type: RecordType,
    answer: response::DescribeRecord,
) -> Result<Option<RecordDetailView>, CloudflareErrorView> {
    if !answer.success {
        Err(
            CloudflareErrorView::Api {
                operation: Operation::Describe,
                errors: pair_views(answer.errors@),
            },
        )
    } else if answer.result@.len() == 0 {
        Ok(None)
    } else if answer.result@.len() == 1 {
        match spec_parse_ip(answer.result@[0].content@) {
            Some(ip_addr) => Ok(
                Some(
                    RecordDetailView {
                        subdomain_name,
                        base_domain_name,
                        ttl: answer.result@[0].ttl,
                        proxied: answer.result@[0].proxied,
                        ip_addr,
                    },
                ),
            ),
            None => Err(CloudflareErrorView::InvalidAddress(answer.result@[0].content@)),
        }
    } else {
        Err(
            CloudflareErrorView::Ambiguous {
                record_type,
                full_domain_name: spec_full_domain_name(subdomain_name, base_domain_name),
            },
        )
    }
}

/// The identifiers that are known after the answer to a query: where the
/// answer holds exactly one record, the identifier of that record is known for
/// the name from then on.
pub open spec fn spec_record_ids_after(
    record_ids: Map<Seq<char>, Seq<char>>,
    full_domain_name: Seq<char>,
    answer: response::DescribeRecord,
) -> Map<Seq<char>, Seq<char>> {
    if answer.success && answer.result@.len() == 1 {
        record_ids.insert(full_domain_name, answer.result@[0].id@)
    } else {
        record_ids
    }
}

/// What the answer to a creation means: failure where the provider says so,
/// or where the record it created has another name than the one asked for.
pub open spec fn spec_created(record: RecordDetailView, answer: response::CreateRecord) -> Result<
    (),
    CloudflareErrorView,
> {
    let requested = spec_full_domain_name(record.subdomain_name, record.base_domain_name);
    if !answer.success {
        Err(
            CloudflareErrorView::Api {
                operation: Operation::Create,
                errors: pair_views(answer.errors@),
            },
        )
    } else if answer.result.name@ != requested {
        Err(CloudflareErrorView::NameMismatch { returned: answer.result.name@, requested })
    } else {
        Ok(())
    }
}

/// What the answer to a change means: failure where the provider says so.
pub open spec fn spec_updated(answer: response::UpdateRecord) -> Result<(), CloudflareErrorView> {
    if !answer.success {
        Err(
            CloudflareErrorView::Api {
                operation: Operation::Update,
                errors: pair_views(answer.errors@),
            },
        )
    } else {
        Ok(())
    }
}

/// The mathematical value of the result of reading an answer.
pub open spec fn outcome_view(r: Result<(), CloudflareError>) -> Result<(), CloudflareErrorView> {
    match r {
        Ok(_) => Ok(()),
        Err(error) => Err(error@),
    }
}

/// The mathematical value of the result of reading the answer to a query.
pub open spec fn described_view(r: Result<Option<RecordDetail>, CloudflareError>) -> Result<
    Option<RecordDetailView>,
    CloudflareErrorView,
> {
    match r {
        Ok(Some(detail)) => Ok(Some(detail@)),
        Ok(None) => Ok(None),
        Err(error) => Err(error@),
    }
}

/// Whether the body is the one that publishes the record.
pub open spec fn body_publishes(
    name: Seq<char>,
    content: Seq<char>,
    record_type: RecordType,
    proxied: bool,
    ttl: u32,
    record: RecordDetailView,
) -> bool {
    &&& name == spec_full_domain_name(record.subdomain_name, record.base_domain_name)
    &&& content == spec_format_ip(record.ip_addr)
    &&& record_type == RecordType::spec_of(record.ip_addr)
    &&& proxied == match record.proxied {
        Some(flag) => flag,
        None => false,
    }
    &&& ttl == record.ttl
}

/// A record that the provider reports as it was published needs no change:
/// where the answer to a query holds one record whose content is the text of
/// the wanted address, whose time to live is the wanted one and whose
/// `proxied` flag does not contradict the wanted one, the record that is found
/// matches the wanted record.
pub proof fn lemma_published_record_is_found_again(
    wanted: RecordDetailView,
    record_type: RecordType,
    answer: response::DescribeRecord,
)
    requires
        answer.success,
        answer.result@.len() == 1,
        answer.result@[0].content@ == spec_format_ip(wanted.ip_addr),
        answer.result@[0].ttl == wanted.ttl,
        answer.result@[0].proxied is None || wanted.proxied is None || answer.result@[0].proxied
            == wanted.proxied,
    ensures
        spec_describe(wanted.subdomain_name, wanted.base_domain_name, record_type, answer) is Ok,
        spec_describe(
            wanted.subdomain_name,
            wanted.base_domain_name,
            record_type,
            answer,
        )->Ok_0 is Some,
        spec_describe(
            wanted.subdomain_name,
            wanted.base_domain_name,
            record_type,
            answer,
        )->Ok_0->0.matches(wanted),
{
    lemma_ip_text_reads_back(wanted.ip_addr);
}

/// Where the provider holds more than one record for a name, the query is an
/// error of the kind that says so, and no identifier is kept.
pub proof fn lemma_several_records_are_refused(
    subdomain_name: Seq<char>,
    base_domain_name: Seq<char>,
    record_type: RecordType,
    answer: response::DescribeRecord,
    record_ids: Map<Seq<char>, Seq<char>>,
)
    requires
        answer.success,
        answer.result@.len() >= 2,
    ensures
        spec_describe(subdomain_name, base_domain_name, record_type, answer) is Err,
        spec_describe(subdomain_name, base_domain_name, record_type, answer)->Err_0.kind()
            == ErrorKind::DescribeAmbiguous,
        spec_record_ids_after(
            record_ids,
            spec_full_domain_name(subdomain_name, base_domain_name),
            answer,
        ) == record_ids,
{
}

/// A record for the domain itself is published under the name of the domain,
/// without a dot before it, and its creation succeeds only if the provider
/// answers with that name.
pub proof fn lemma_apex_record_is_named_as_the_domain(
    record: RecordDetailView,
    answer: response::CreateRecord,
    name: Seq<char>,
    content: Seq<char>,
    record_type: RecordType,
    proxied: bool,
    ttl: u32,
)
    requires
        is_apex(record.subdomain_name),
    ensures
        body_publishes(name, content, record_type, proxied, ttl, record) ==> name
            == record.base_domain_name,
        spec_created(record, answer) is Ok <==> answer.success && answer.result.name@
            == record.base_domain_name,
{
}

/// Both ways of writing the domain itself stand for the same name. The
/// identifier that a query under one of them finds is therefore the one that
/// a change under the other goes to.
pub proof fn lemma_apex_forms_share_an_identifier(
    first: Seq<char>,
    second: Seq<char>,
    base_domain_name: Seq<char>,
    answer: response::DescribeRecord,
    record_ids: Map<Seq<char>, Seq<char>>,
)
    requires
        is_apex(first),
        is_apex(second),
        answer.success,
        answer.result@.len() == 1,
    ensures
        spec_full_domain_name(first, base_domain_name) == base_domain_name,
        spec_full_domain_name(second, base_domain_name) == base_domain_name,
        spec_record_ids_after(
            record_ids,
            spec_full_domain_name(first, base_domain_name),
            answer,
        ).contains_key(spec_full_domain_name(second, base_domain_name)),
        spec_record_ids_after(
            record_ids,
            spec_full_domain_name(first, base_domain_name),
            answer,
        )[spec_full_domain_name(second, base_domain_name)] == answer.result@[0].id@,
{
}

impl View for CloudflareInterface {
    type V = CloudflareInterfaceView;

    closed spec fn view(&self) -> CloudflareInterfaceView {
        CloudflareInterfaceView {
            zone_id: self.config.zone_id@,
            api_token: self.config.api_token@,
            record_ids: self.record_id_cache@.map_values(|id: String| id@),
        }
    }
}

impl CloudflareInterface {
    /// Returns the state at the start of a conversation: no record has been
    /// found yet.
    pub fn new(config: CloudflareInterfaceBuildConfig) -> (r: Self)
        ensures
            r@ == (CloudflareInterfaceView {
                zone_id: config.zone_id@,
                api_token: config.api_token@,
                record_ids: Map::<Seq<char>, Seq<char>>::empty(),
            }),
    {
        let r = CloudflareInterface { config, record_id_cache: StringHashMap::new() };
        proof {
            assert(r.record_id_cache@.map_values(|id: String| id@) =~= Map::<
                Seq<char>,
                Seq<char>,
            >::empty());
        }
        r
    }

    /// Returns the fully-qualified name of a label under a domain: the domain
    /// itself where the label is `"@"` or empty, else the label, a dot and the
    /// domain.
    pub fn get_full_domain(subdomain: &str, base_domain: &str) -> (name: String)
        ensures
            name@ == spec_full_domain_name(subdomain@, base_domain@),
    {
        full_domain_name(subdomain, base_domain)
    }

    /// Cloudflare wants no step of its own before the first request: the
    /// token goes with each request.
    pub fn authorize(&mut self) -> (r: Result<(), CloudflareError>)
        ensures
            r is Ok,
            final(self)@ == old(self)@,
    {
        Ok(())
    }

    /// Returns the address under which the records of the zone are found.
    fn records_url(&self) -> (url: String)
        ensures
            url@ == spec_records_url(self@.zone_id),
    {
        let mut url = String::from_str("https://api.cloudflare.com/client/v4/zones/");
        url.append(self.config.zone_id.as_str());
        url.append("/dns_records");
        url
    }

    /// Returns the header that authorizes a request.
    fn authorization(&self) -> (header: Header)
        ensures
            header.name@ == "Authorization"@,
            header.value@ == spec_bearer(self@.api_token),
    {
        let mut value = String::from_str("Bearer ");
        value.append(self.config.api_token.as_str());
        Header { name: String::from_str("Authorization"), value }
    }

    /// Returns the body that publishes the record.
    fn publish_body(record: &RecordDetail) -> (body: (String, String, RecordType, bool, u32))
        ensures
            body_publishes(body.0@, body.1@, body.2, body.3, body.4, record@),
    {
        (
            full_domain_name(record.subdomain_name.as_str(), record.base_domain_name.as_str()),
            format_ip(&record.ip_addr),
            RecordType::from(record.ip_addr),
            record.proxied.unwrap_or(false),
            record.ttl,
        )
    }

    /// Returns the request that asks for the records of the given type that
    /// the zone holds for the name, or an error where its address cannot be
    /// put together.
    ///
    /// The address is that of the zone's records with the name and the type
    /// added to it as parameters. A zone identifier, label or domain name of
    /// more than `MAX_URL_PART` characters is refused, because the URL type
    /// cannot be trusted to hold the address then.
    pub fn describe_request(
        &self,
        subdomain_name: &str,
        base_domain_name: &str,
        record_type: RecordType,
    ) -> (r: Result<ApiRequest<()>, CloudflareError>)
        ensures
            if fits_in_url(self@.zone_id) && fits_in_url(subdomain_name@) && fits_in_url(
                base_domain_name@,
            ) {
                match url_with_params(
                    spec_records_url(self@.zone_id),
                    spec_describe_params(
                        spec_full_domain_name(subdomain_name@, base_domain_name@),
                        record_type,
                    ),
                ) {
                    Ok(url) => r is Ok && r->Ok_0.method == Method::Get && r->Ok_0.url@ == url
                        && only_authorization(r->Ok_0.headers@, self@.api_token),
                    Err(reason) => r is Err && r->Err_0@ == CloudflareErrorView::Url(reason),
                }
            } else {
                r is Err && r->Err_0@ == CloudflareErrorView::Url("a part of the url is too long"@)
            },
    {
        if self.config.zone_id.as_str().unicode_len() > MAX_URL_PART
            || subdomain_name.unicode_len() > MAX_URL_PART || base_domain_name.unicode_len()
            > MAX_URL_PART {
            return Err(CloudflareError::Url(String::from_str("a part of the url is too long")));
        }
        proof {
            reveal_strlit("https://api.cloudflare.com/client/v4/zones/");
            reveal_strlit("/dns_records");
            reveal_strlit("name");
            reveal_strlit("type");
            reveal_strlit("A");
            reveal_strlit("AAAA");
        }
        let name = full_domain_name(subdomain_name, base_domain_name);
        let mut params: Vec<(String, String)> = Vec::new();
        params.push((String::from_str("name"), name));
        params.push((String::from_str("type"), String::from_str(record_type.name())));
        proof {
            assert(param_views(params@) =~= spec_describe_params(
                spec_full_domain_name(subdomain_name@, base_domain_name@),
                record_type,
            ));
        }
        let base = self.records_url();
        let url = parse_url_with_params(base.as_str(), &params);
        self.describe_request_to(url)
    }

    /// Returns the request that asks for records, given its address or the
    /// reason why there is none.
    pub fn describe_request_to(&self, url: Result<String, String>) -> (r: Result<
        ApiRequest<()>,
        CloudflareError,
    >)
        ensures
            match url {
                Ok(address) => r is Ok && r->Ok_0.method == Method::Get && r->Ok_0.url@ == address@
                    && only_authorization(r->Ok_0.headers@, self@.api_token),
                Err(reason) => r is Err && r->Err_0@ == CloudflareErrorView::Url(reason@),
            },
    {
        match url {
            Ok(address) => {
                let mut headers: Vec<Header> = Vec::new();
                headers.push(self.authorization());
                Ok(ApiRequest { method: Method::Get, url: address, headers, body: () })
            },
            Err(reason) => Err(CloudflareError::Url(reason)),
        }
    }

    /// Reads the decoded answer to the query for the records of a name.
    ///
    /// Returns the record that the zone holds, `None` where it holds none,
    /// and an error where the provider reports failure, where it holds more
    /// than one record, or where the content of the record is no address.
    /// Where the answer holds exactly one record its identifier is kept for
    /// a later change.
    pub fn describe_response(
        &mut self,
        subdomain_name: &str,
        base_domain_name: &str,
        record_type: RecordType,
        answer: &response::DescribeRecord,
    ) -> (r: Result<Option<RecordDetail>, CloudflareError>)
        ensures
            described_view(r) == spec_describe(
                subdomain_name@,
                base_domain_name@,
                record_type,
                *answer,
            ),
            answer.success && answer.result@.len() > 1 ==> r is Err && r->Err_0@.kind()
                == ErrorKind::DescribeAmbiguous && final(self)@.record_ids == old(
                self,
            )@.record_ids,
            final(self)@.zone_id == old(self)@.zone_id,
            final(self)@.api_token == old(self)@.api_token,
            final(self)@.record_ids == spec_record_ids_after(
                old(self)@.record_ids,
                spec_full_domain_name(subdomain_name@, base_domain_name@),
                *answer,
            ),
    {
        let name = full_domain_name(subdomain_name, base_domain_name);
        if !answer.success {
            return Err(
                CloudflareError::Api {
                    operation: Operation::Describe,
                    errors: clone_pairs(&answer.errors),
                },
            );
        }
        if answer.result.len() == 0 {
            return Ok(None);
        }
        if answer.result.len() > 1 {
            return Err(CloudflareError::Ambiguous { record_type, full_domain_name: name });
        }
        let found = &answer.result[0];
        let ghost ids_before = self@.record_ids;
        self.record_id_cache.insert(name, found.id.clone());
        proof {
            assert(self@.record_ids =~= ids_before.insert(
                spec_full_domain_name(subdomain_name@, base_domain_name@),
                found.id@,
            ));
        }
        match parse_ip(found.content.as_str()) {
            Some(ip_addr) => Ok(
                Some(
                    RecordDetail {
                        subdomain_name: subdomain_name.to_owned(),
                        base_domain_name: base_domain_name.to_owned(),
                        ttl: found.ttl,
                        proxied: found.proxied,
                        ip_addr,
                    },
                ),
            ),
            None => Err(CloudflareError::InvalidAddress(found.content.clone())),
        }
    }

    /// Returns the request that creates the record: a `Post` to the zone's
    /// records, with a body that publishes the record.
    pub fn create_request(&self, record: &RecordDetail) -> (r: ApiRequest<request::CreateRecord>)
        ensures
            r.method == Method::Post,
            r.url@ == spec_records_url(self@.zone_id),
            authorization_and_json(r.headers@, self@.api_token),
            is_apex(record@.subdomain_name) ==> r.body.name@ == record@.base_domain_name,
            body_publishes(
                r.body.name@,
                r.body.content@,
                r.body.record_type,
                r.body.proxied,
                r.body.ttl,
                record@,
            ),
    {
        let (name, content, record_type, proxied, ttl) = Self::publish_body(record);
        let mut headers: Vec<Header> = Vec::new();
        headers.push(self.authorization());
        headers.push(
            Header {
                name: String::from_str("Content-Type"),
                value: String::from_str("application/json"),
            },
        );
        ApiRequest {
            method: Method::Post,
            url: self.records_url(),
            headers,
            body: request::CreateRecord { name, content, record_type, proxied, ttl },
        }
    }

    /// Reads the decoded answer to the creation of the record.
    pub fn create_response(&self, record: &RecordDetail, answer: &response::CreateRecord) -> (r:
        Result<(), CloudflareError>)
        ensures
            outcome_view(r) == spec_created(record@, *answer),
    {
        if !answer.success {
            return Err(
                CloudflareError::Api {
                    operation: Operation::Create,
                    errors: clone_pairs(&answer.errors),
                },
            );
        }
        let requested = full_domain_name(
            record.subdomain_name.as_str(),
            record.base_domain_name.as_str(),
        );
        if !(requested == answer.result.name) {
            return Err(
                CloudflareError::NameMismatch { returned: answer.result.name.clone(), requested },
            );
        }
        Ok(())
    }

    /// Returns the request that changes the record of the name to the given
    /// content: a `Put` to the record that an earlier query found, with a body
    /// that publishes the record. It is an error to ask for it before a query
    /// has found a record for the name.
    pub fn update_request(&self, record: &RecordDetail) -> (r: Result<
        ApiRequest<request::UpdateRecord>,
        CloudflareError,
    >)
        ensures
            ({
                let name = spec_full_domain_name(
                    record@.subdomain_name,
                    record@.base_domain_name,
                );
                if self@.record_ids.contains_key(name) {
                    &&& r is Ok
                    &&& r->Ok_0.method == Method::Put
                    &&& r->Ok_0.url@ == spec_record_url(self@.zone_id, self@.record_ids[name])
                    &&& only_authorization(r->Ok_0.headers@, self@.api_token)
                    &&& body_publishes(
                        r->Ok_0.body.name@,
                        r->Ok_0.body.content@,
                        r->Ok_0.body.record_type,
                        r->Ok_0.body.proxied,
                        r->Ok_0.body.ttl,
                        record@,
                    )
                } else {
                    r is Err && r->Err_0@ == CloudflareErrorView::MissingRecordId(name)
                }
            }),
    {
        let (name, content, record_type, proxied, ttl) = Self::publish_body(record);
        let record_id = match self.record_id_cache.get(name.as_str()) {
            Some(id) => id,
            None => {
                return Err(CloudflareError::MissingRecordId(name));
            },
        };
        let mut url = self.records_url();
        url.append("/");
        url.append(record_id.as_str());
        let mut headers: Vec<Header> = Vec::new();
        headers.push(self.authorization());
        Ok(
            ApiRequest {
                method: Method::Put,
                url,
                headers,
                body: request::UpdateRecord { name, content, record_type, proxied, ttl },
            },
        )
    }

    /// Reads the decoded answer to the change of a record.
    pub fn update_response(&self, answer: &response::UpdateRecord) -> (r: Result<
        (),
        CloudflareError,
    >)
        ensures
            outcome_view(r) == spec_updated(*answer),
    {
        if !answer.success {
            return Err(
                CloudflareError::Api {
                    operation: Operation::Update,
                    errors: clone_pairs(&answer.errors),
                },
            );
        }
        Ok(())
    }
}

} // verus!
