//! What is sent to Cloudflare in the body of a request.

use crate::config::RecordType;
use vstd::prelude::*;

verus! {

/// The body of the request that creates a record.
#[derive(Debug)]
pub struct CreateRecord {
    pub name: String,
    pub content: String,
    pub record_type: RecordType,
    pub proxied: bool,
    pub ttl: u32,
}

/// The body of the request that changes a record.
#[derive(Debug)]
pub struct UpdateRecord {
    pub name: String,
    pub content: String,
    pub record_type: RecordType,
    pub proxied: bool,
    pub ttl: u32,
}

} // verus!
