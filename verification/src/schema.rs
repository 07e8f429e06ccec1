//! The call shape the query layer relies on: point and list queries,
//! live subscriptions, and the per-event chain relationship.

use vstd::prelude::*;
use vstd::string::StringExecFns;

use crate::errors::AppError;
use crate::fanout::Subscriber;
use crate::indexer::SubstrateIndexerService;
use crate::models::{ChainInfo, Event, EventFilterInput};
use crate::store::{contains_event_id, filtered_views, opt_filter_view, sorted_desc,
    spec_find_chain, spec_max_block, views_of_events};

verus! {

/// Root of the read queries.
pub struct QueryRoot;

impl QueryRoot {
    /// Liveness probe.
    pub fn health_check(&self) -> (r: String)
        ensures
            r@ == "OK"@,
    {
        "OK".to_string()
    }

    /// Returns the message unchanged.
    pub fn echo(&self, message: String) -> (r: String)
        ensures
            r == message,
    {
        message
    }

    /// The active chain's metadata.
    pub fn chain_info(&self, service: &SubstrateIndexerService) -> (r: ChainInfo)
        requires
            service.wf(),
        ensures
            r@ == service.chains()[0]@,
    {
        service.get_chain_info()
    }

    /// Point lookup of one event.
    pub fn event(&self, service: &SubstrateIndexerService, id: &String) -> (r: Option<Event>)
        requires
            service.wf(),
        ensures
            match r {
                Option::Some(ev) => {
                    &&& ev.id@ == id@
                    &&& contains_event_id(service.events(), id@)
                    &&& forall|i: int|
                        0 <= i < service.events().len() && (#[trigger] service.events()[i]).id@
                            == id@ ==> ev@ == service.events()[i]@
                },
                Option::None => !contains_event_id(service.events(), id@),
            },
    {
        service.get_event_by_id(id)
    }

    /// The filtered events, newest first.
    pub fn events(&self, service: &SubstrateIndexerService, filter: &Option<EventFilterInput>) -> (r:
        Vec<Event>)
        requires
            service.wf(),
        ensures
            sorted_desc(r@),
            views_of_events(r@).to_multiset() == filtered_views(
                service.events(),
                opt_filter_view(*filter),
            ).to_multiset(),
    {
        service.list_events(filter)
    }
}

/// Root of the live subscriptions.
pub struct SubscriptionRoot;

impl SubscriptionRoot {
    /// Opens a live cursor: it observes exactly the events published
    /// after this call.
    pub fn events(&self, service: &SubstrateIndexerService) -> (s: Subscriber)
        requires
            service.wf(),
        ensures
            s.cursor() == service.next_seq(),
    {
        service.watch_events()
    }
}

impl Event {
    /// Resolves this event's chain relationship: the stored record the
    /// event's foreign key names, or a not-found error when no chain
    /// carries that identifier.
    pub fn chain(&self, service: &SubstrateIndexerService) -> (r: Result<ChainInfo, AppError>)
        requires
            service.wf(),
        ensures
            match r {
                Result::Ok(c) => match spec_find_chain(service.chains(), self.chain_id@) {
                    Option::Some(sc) => c@ == sc@,
                    Option::None => false,
                },
                Result::Err(e) => {
                    &&& spec_find_chain(service.chains(), self.chain_id@) is None
                    &&& e is NotFound
                    &&& e.spec_detail() == "ChainInfo not found for ID: "@ + self.chain_id@
                },
            },
    {
        match service.store_find_chain(&self.chain_id) {
            Option::Some(c) => Result::Ok(c),
            Option::None => {
                let message = "ChainInfo not found for ID: ".to_string().concat(
                    self.chain_id.as_str(),
                );
                Result::Err(AppError::NotFound(message))
            },
        }
    }
}

impl ChainInfo {
    /// The store-wide block-number high-water mark, 0 when nothing is
    /// stored yet.
    pub fn current_block_height(&self, service: &SubstrateIndexerService) -> (r: u64)
        ensures
            r == spec_max_block(service.events()),
    {
        service.max_block_number()
    }
}

} // verus!
