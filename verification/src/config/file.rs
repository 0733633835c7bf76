//! The settings that a settings file supplies.

use crate::api::ServiceProvider;
use crate::config::RecordType;
use vstd::prelude::*;

verus! {

/// The formats a settings file may be written in.
#[derive(Debug, Clone, Copy, PartialEq, Eq, Structural)]
pub enum FileType {
    Json,
    Toml,
}

/// Returns whether two texts are the same.
fn same_text(first: &str, second: &str) -> (r: bool)
    ensures
        r == (first@ == second@),
{
    let first = first.to_owned();
    let second = second.to_owned();
    first == second
}

impl FileType {
    /// The format that the extension of a file name stands for.
    pub open spec fn spec_from_extension(extension: Seq<char>) -> Option<FileType> {
        if extension == "json"@ {
            Some(FileType::Json)
        } else if extension == "toml"@ {
            Some(FileType::Toml)
        } else {
            None
        }
    }

    /// Returns the format that the extension of a file name stands for:
    /// `json` and `toml` stand for the two formats, and nothing else stands
    /// for any.
    pub fn from_extension(extension: &str) -> (r: Option<FileType>)
        ensures
            r == Self::spec_from_extension(extension@),
    {
        if same_text(extension, "json") {
            Some(FileType::Json)
        } else if same_text(extension, "toml") {
            Some(FileType::Toml)
        } else {
            None
        }
    }
}

/// Everything a run is told: where to ask for the host's addresses, and the
/// domains to keep in step with them.
#[derive(Debug)]
pub struct DDNSSetings {
    pub get_ip_urls: GetIPUrls,
    pub domain_settings: Vec<SingleDomainSettings>,
}

/// The two services that answer with the caller's address as plain text.
#[derive(Debug)]
pub struct GetIPUrls {
    pub ipv4: String,
    pub ipv6: String,
}

/// One domain at one provider, and the names under it that are kept in step.
#[derive(Debug)]
pub struct SingleDomainSettings {
    pub enabled: bool,
    pub domain_name: String,
    pub service_provider: ServiceProvider,
    pub record_type: RecordType,
    /// Whether a record that the provider does not hold yet is created.
    pub create_new_record: bool,
    pub subdomains: Vec<SubDomainSettings>,
}

/// One name under a domain.
#[derive(Debug)]
pub struct SubDomainSettings {
    /// A label, or `"@"` or the empty string for the domain itself.
    pub name: String,
    /// The record's time to live in seconds; 1 leaves the choice to the provider.
    pub ttl: u32,
    /// Whether the provider is to proxy traffic; `None` if that does not matter.
    pub proxied: Option<bool>,
    /// An IPv6 literal whose low 64 bits replace those of the host's address.
    pub interface_id: Option<String>,
}

/// The mathematical value of a `SubDomainSettings`.
pub struct SubDomainSettingsView {
    pub name: Seq<char>,
    pub ttl: u32,
    pub proxied: Option<bool>,
    pub interface_id: Option<Seq<char>>,
}

impl View for SubDomainSettings {
    type V = SubDomainSettingsView;

    open spec fn view(&self) -> SubDomainSettingsView {
        SubDomainSettingsView {
            name: self.name@,
            ttl: self.ttl,
            proxied: self.proxied,
            interface_id: match self.interface_id {
                Some(text) => Some(text@),
                None => None,
            },
        }
    }
}

/// Whether records are created where a domain's settings do not say: they are.
pub fn default_create_new_record() -> (r: bool)
    ensures
        r,
{
    true
}

/// The time to live where a name's settings give none: 1, which leaves the
/// choice to the provider.
pub fn default_ttl() -> (r: u32)
    ensures
        r == 1,
{
    1
}

} // verus!
