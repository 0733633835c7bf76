//! A provider together with the log of what was asked of it.

use crate::api::{
    describe_outcome, plain_outcome, ApiError, ApiInterface, ProviderCall, RecordDetail,
};
use crate::config::RecordType;
use vstd::prelude::*;

verus! {

/// A provider that can be reached only through methods that write down each
/// call, with its arguments and its answer. What `calls` holds is therefore
/// all that was asked of the provider since it was wrapped.
pub struct Recorded<S: ApiInterface> {
    provider: S,
    log: Ghost<Seq<ProviderCall>>,
}

impl<S: ApiInterface> Recorded<S> {
    /// The calls made so far, oldest first.
    pub closed spec fn calls(&self) -> Seq<ProviderCall> {
        self.log@
    }

    /// The provider as it is now.
    pub closed spec fn provider(&self) -> S {
        self.provider
    }

    /// Wraps a provider. The log starts empty.
    pub fn new(provider: S) -> (r: Self)
        ensures
            r.calls() == Seq::<ProviderCall>::empty(),
            r.provider() == provider,
    {
        Recorded { provider, log: Ghost(Seq::empty()) }
    }

    /// Calls `authorize` on the provider.
    pub fn authorize(&mut self) -> (r: Result<(), ApiError>)
        ensures
            final(self).calls() == old(self).calls().push(
                ProviderCall::Authorize { outcome: plain_outcome(r) },
            ),
    {
        let r = self.provider.authorize();
        proof {
            self.log@ = self.log@.push(ProviderCall::Authorize { outcome: plain_outcome(r) });
        }
        r
    }

    /// Calls `describe_record` on the provider.
    pub fn describe(
        &mut self,
        subdomain_name: &str,
        base_domain_name: &str,
        record_type: RecordType,
    ) -> (r: Result<Option<RecordDetail>, ApiError>)
        ensures
            final(self).calls() == old(self).calls().push(
                ProviderCall::DescribeRecord {
                    subdomain_name: subdomain_name@,
                    base_domain_name: base_domain_name@,
                    record_type,
                    outcome: describe_outcome(r),
                },
            ),
    {
        let r = self.provider.describe_record(subdomain_name, base_domain_name, record_type);
        proof {
            self.log@ = self.log@.push(
                ProviderCall::DescribeRecord {
                    subdomain_name: subdomain_name@,
                    base_domain_name: base_domain_name@,
                    record_type,
                    outcome: describe_outcome(r),
                },
            );
        }
        r
    }

    /// Calls `create_record` on the provider.
    pub fn create(&mut self, record_detail: RecordDetail) -> (r: Result<(), ApiError>)
        ensures
            final(self).calls() == old(self).calls().push(
                ProviderCall::CreateRecord { record: record_detail@, outcome: plain_outcome(r) },
            ),
    {
        let ghost record = record_detail@;
        let r = self.provider.create_record(record_detail);
        proof {
            self.log@ = self.log@.push(
                ProviderCall::CreateRecord { record, outcome: plain_outcome(r) },
            );
        }
        r
    }

    /// Calls `update_record` on the provider.
    pub fn update(&mut self, record_detail: RecordDetail) -> (r: Result<(), ApiError>)
        ensures
            final(self).calls() == old(self).calls().push(
                ProviderCall::UpdateRecord { record: record_detail@, outcome: plain_outcome(r) },
            ),
    {
        let ghost record = record_detail@;
        let r = self.provider.update_record(record_detail);
        proof {
            self.log@ = self.log@.push(
                ProviderCall::UpdateRecord { record, outcome: plain_outcome(r) },
            );
        }
        r
    }

    /// Hands the provider back, as the calls have left it. The log ends here.
    pub fn into_inner(self) -> (provider: S)
        ensures
            provider == self.provider(),
    {
        self.provider
    }
}

} // verus!
