//! Keeps DNS host-address records in step with the addresses a host is
//! currently reachable under.
//!
//! The library decides and describes; it sends nothing and writes no log.
//!
//! - [`address`] holds host addresses, reads and writes them as text, and
//!   merges a fixed interface identifier into a changing IPv6 address.
//! - [`api`] holds the record that reconciler and provider exchange, the
//!   capability that a provider offers, and what is sent to and read from
//!   Cloudflare.
//! - [`config`] holds the settings of a run.
//! - [`domain_record_changer`] holds the reconciler of one domain.
//! - [`orchestrator`] decides which domains a run works on, given the
//!   addresses that were found.

pub mod address;
pub mod api;
pub mod config;
pub mod domain_record_changer;
pub mod orchestrator;
