use vstd::prelude::*;

pub mod admin;
pub mod config;
pub mod dispatcher;
pub mod ldap;
pub mod pipeline;
pub mod sending;

use crate::dispatcher::{Dispatcher, RequestPermits};

verus! {

/// The services that the pipeline and the dispatcher share, passed to each component
/// explicitly rather than read from a process-wide global.
pub struct Services {
    /// The outbound queues of all destinations.
    pub sending: Dispatcher,
    /// The bound on outbound requests in flight, over all destinations.
    pub maximum_requests: RequestPermits,
}

/// The shared services, with nothing queued and room for `max_concurrent_requests`
/// outbound requests at once.
pub fn services(max_concurrent_requests: u64) -> (r: Services)
    ensures
        r.sending.wf(),
        r.sending.queues@ == Map::<u64, crate::dispatcher::DestinationQueue>::empty(),
        r.maximum_requests.wf(),
        r.maximum_requests.in_use == 0,
        r.maximum_requests.limit == max_concurrent_requests,
{
    Services { sending: Dispatcher::new(), maximum_requests: RequestPermits::new(max_concurrent_requests) }
}

} // verus!
