//! The indexer service: owns the store and the fan-out channel, seeds
//! the mock chain, and synthesizes new events. Inserting an event and
//! publishing it to subscribers is one logical operation here, so a
//! subscription taken after an insert returns can never miss a later
//! event.

use vstd::prelude::*;

use crate::config::AppConfig;
use crate::fanout::{Broadcaster, RecvOutcome, RecvOutcomeV, Subscriber, lemma_recv_in_order,
    recv_outcome_view, spec_recv};
use crate::models::{ChainInfo, Event, EventFilterInput, JsonValue};
use crate::models::EventV;
use crate::store::{EventStore, contains_event_id, filtered_views, opt_filter_view, sorted_desc,
    spec_find_chain, spec_max_block, views_of_events, without_id};

verus! {

/// How many events a subscriber may fall behind before it lags.
pub const EVENT_CHANNEL_CAPACITY: usize = 100;

/// Latest timestamp the service will ever record, in milliseconds
/// since the Unix epoch; clock readings are clamped into range so that
/// derived offsets cannot overflow.
pub const MAX_TIMESTAMP_MILLIS: i64 = 4_000_000_000_000_000;

/// Relies on uuid::Uuid::new_v4 and its hyphenated Display form: a
/// freshly drawn random identifier. Nothing can be promised of a
/// random value.
#[verifier::external_body]
fn fresh_event_id() -> (r: String) {
    uuid::Uuid::new_v4().to_string()
}

/// Relies on uuid::Uuid::new_v4 and its simple (hyphen-free) form: a
/// freshly drawn extrinsic reference, prefixed with "0x". Nothing can
/// be promised of a random value.
#[verifier::external_body]
fn fresh_extrinsic_ref() -> (r: String) {
    format!("0x{}", uuid::Uuid::new_v4().simple())
}

/// Relies on chrono::Utc::now and DateTime::timestamp_millis: the
/// clock's reading in milliseconds since the Unix epoch. Nothing can
/// be promised of the clock.
#[verifier::external_body]
fn now_millis() -> (r: i64) {
    chrono::Utc::now().timestamp_millis()
}

/// Relies on rand::random_range over an inclusive range, which returns
/// a value of the range and panics only when the range is empty.
#[verifier::external_body]
fn rand_range_u64(lo: u64, hi: u64) -> (r: u64)
    requires
        lo <= hi,
    ensures
        lo <= r <= hi,
{
    rand::random_range(lo..=hi)
}

/// Relies on rand::random for bool: a coin flip. Nothing can be
/// promised of a random value.
#[verifier::external_body]
fn rand_coin() -> (r: bool) {
    rand::random::<bool>()
}

/// Clamps a clock reading into the supported timestamp range.
fn clamp_timestamp(t: i64) -> (r: i64)
    ensures
        0 <= r <= MAX_TIMESTAMP_MILLIS,
        0 <= t <= MAX_TIMESTAMP_MILLIS ==> r == t,
{
    if t < 0 {
        0
    } else if t > MAX_TIMESTAMP_MILLIS {
        MAX_TIMESTAMP_MILLIS
    } else {
        t
    }
}

/// Every seeded event looks like a balances transfer of the active chain
/// with a block number in the seeded range.
pub open spec fn seeded_event(e: Event, chain_id: Seq<char>) -> bool {
    &&& e.pallet_name@ == "Balances"@
    &&& e.event_name@ == "Transfer"@
    &&& e.chain_id@ == chain_id
    &&& 10000 <= e.block_number <= 10004
}

/// The mutable core behind the query layer: configuration, the event
/// store, and the fan-out channel.
pub struct SubstrateIndexerService {
    config: AppConfig,
    store: EventStore,
    channel: Broadcaster,
}

impl SubstrateIndexerService {
    /// The store component.
    pub closed spec fn store_state(&self) -> EventStore {
        self.store
    }

    /// The fan-out component.
    pub closed spec fn channel_state(&self) -> Broadcaster {
        self.channel
    }

    /// The configuration the service was built with.
    pub closed spec fn config_state(&self) -> AppConfig {
        self.config
    }

    /// The stored events, in insertion order.
    pub open spec fn events(&self) -> Seq<Event> {
        self.store_state().events()
    }

    /// The stored chain records.
    pub open spec fn chains(&self) -> Seq<ChainInfo> {
        self.store_state().chains()
    }

    /// Views of every event ever published to subscribers.
    pub open spec fn log(&self) -> Seq<EventV> {
        self.channel_state().log()
    }

    /// Position one past the most recently published event.
    pub open spec fn next_seq(&self) -> int {
        self.channel_state().next_seq()
    }

    /// The subscriber lag bound.
    pub open spec fn capacity(&self) -> int {
        self.channel_state().capacity()
    }

    /// Both components are internally consistent.
    pub open spec fn wf(&self) -> bool {
        &&& self.store_state().wf()
        &&& self.channel_state().wf()
    }

    /// A service over the mock chain, seeded with five transfer events
    /// (block numbers 10000 through 10004) and an idle channel. Should
    /// two freshly drawn identifiers ever collide, the later seed
    /// overwrites the earlier one.
    pub fn new(config: AppConfig) -> (s: Self)
        ensures
            s.wf(),
            s.config_state() == config,
            s.chains().len() == 1,
            s.chains()[0].id@ == "polkadot-mainnet-mock"@,
            1 <= s.events().len() <= 5,
            forall|k: int|
                0 <= k < s.events().len() ==> seeded_event(
                    #[trigger] s.events()[k],
                    s.chains()[0].id@,
                ),
            s.events().last().block_number == 10004,
            s.log() == Seq::<EventV>::empty(),
            s.capacity() == EVENT_CHANNEL_CAPACITY,
    {
        let now = clamp_timestamp(now_millis());
        let chain = ChainInfo {
            id: "polkadot-mainnet-mock".to_string(),
            name: "Polkadot (Mock)".to_string(),
            version: "0.9.99-mock".to_string(),
            token_symbol: "MDOT".to_string(),
            decimals: 10,
            ssv58_prefix: 0,
            last_updated: now,
        };
        let mut store = EventStore::new(chain);
        let ghost chain_id: Seq<char> = store.chains()[0].id@;
        let mut i: u64 = 0;
        while i < 5
            invariant
                0 <= i <= 5,
                0 <= now <= MAX_TIMESTAMP_MILLIS,
                store.wf(),
                store.chains().len() == 1,
                chain_id == store.chains()[0].id@,
                chain_id == "polkadot-mainnet-mock"@,
                i == 0 ==> store.events().len() == 0,
                i > 0 ==> 1 <= store.events().len() <= i,
                i > 0 ==> store.events().last().block_number == 10000 + i - 1,
                forall|k: int|
                    0 <= k < store.events().len() ==> seeded_event(
                        #[trigger] store.events()[k],
                        chain_id,
                    ),
            decreases 5 - i,
        {
            let offset: i64 = (5 - (i as i64)) * 10_000;
            let mut data_fields: Vec<(String, JsonValue)> = Vec::new();
            data_fields.push(("from".to_string(), JsonValue::Str("Alice".to_string())));
            data_fields.push(("to".to_string(), JsonValue::Str("Bob".to_string())));
            data_fields.push((
                "amount".to_string(),
                JsonValue::Int(((100 + (i as i64)) * 1_000_000_000_000)),
            ));
            let e = Event {
                id: fresh_event_id(),
                block_number: 10000 + i,
                extrinsic_id: Option::Some(fresh_extrinsic_ref()),
                timestamp: now - offset,
                pallet_name: "Balances".to_string(),
                event_name: "Transfer".to_string(),
                data: JsonValue::Object(data_fields),
                chain_id: "polkadot-mainnet-mock".to_string(),
            };
            let ghost before: Seq<Event> = store.events();
            store.insert(e);
            proof {
                crate::store::lemma_without_id_props(before, e.id@);
                assert forall|k: int|
                    0 <= k < store.events().len() implies seeded_event(
                        #[trigger] store.events()[k],
                        chain_id,
                    ) by {
                    let w = without_id(before, e.id@);
                    if k < w.len() {
                        assert(store.events()[k] == w[k]);
                        let j = choose|j: int| 0 <= j < before.len() && before[j] == w[k];
                        assert(seeded_event(before[j], chain_id));
                    } else {
                        assert(store.events()[k] == e);
                    }
                }
            }
            i = i + 1;
        }
        let channel = Broadcaster::new(EVENT_CHANNEL_CAPACITY);
        SubstrateIndexerService { config, store, channel }
    }

    /// The active chain's metadata.
    pub fn get_chain_info(&self) -> (r: ChainInfo)
        requires
            self.wf(),
        ensures
            r@ == self.chains()[0]@,
    {
        self.store.primary_chain()
    }

    /// Batch metadata lookup over the store; see
    /// `EventStore::get_chain_infos_batch`.
    pub fn get_chain_infos_batch(&self, ids: &Vec<String>) -> (r: Vec<(String, ChainInfo)>)
        requires
            self.wf(),
        ensures
            forall|k: int|
                0 <= k < r@.len() ==> match spec_find_chain(self.chains(), (#[trigger] r@[k]).0@) {
                    Option::Some(c) => r@[k].1@ == c@,
                    Option::None => false,
                },
            forall|k: int|
                0 <= k < r@.len() ==> crate::store::contains_key(ids@, (#[trigger] r@[k]).0@),
            forall|i: int|
                0 <= i < ids@.len() && spec_find_chain(self.chains(), (#[trigger] ids@[i])@)
                    is Some ==> crate::store::pairs_contain(r@, ids@[i]@),
            forall|k1: int, k2: int| 0 <= k1 < k2 < r@.len() ==> r@[k1].0@ != r@[k2].0@,
    {
        self.store.get_chain_infos_batch(ids)
    }

    /// First stored chain record carrying `id`, if any.
    pub fn store_find_chain(&self, id: &String) -> (r: Option<ChainInfo>)
        requires
            self.wf(),
        ensures
            match (r, spec_find_chain(self.chains(), id@)) {
                (Option::Some(a), Option::Some(b)) => a@ == b@,
                (Option::None, Option::None) => true,
                _ => false,
            },
    {
        self.store.find_chain(id)
    }

    /// Exact point lookup; `None` is the normal negative result.
    pub fn get_event_by_id(&self, id: &String) -> (r: Option<Event>)
        requires
            self.wf(),
        ensures
            match r {
                Option::Some(ev) => {
                    &&& ev.id@ == id@
                    &&& contains_event_id(self.events(), id@)
                    &&& forall|i: int|
                        0 <= i < self.events().len() && (#[trigger] self.events()[i]).id@ == id@
                            ==> ev@ == self.events()[i]@
                },
                Option::None => !contains_event_id(self.events(), id@),
            },
    {
        self.store.get_by_id(id)
    }

    /// The filtered events, newest first; see `EventStore::list`.
    pub fn list_events(&self, filter: &Option<EventFilterInput>) -> (r: Vec<Event>)
        requires
            self.wf(),
        ensures
            sorted_desc(r@),
            views_of_events(r@).to_multiset() == filtered_views(
                self.events(),
                opt_filter_view(*filter),
            ).to_multiset(),
    {
        self.store.list(filter)
    }

    /// Current block-number high-water mark, 0 on an empty store.
    pub fn max_block_number(&self) -> (r: u64)
        ensures
            r == spec_max_block(self.events()),
    {
        self.store.max_block_number()
    }

    /// Ingests `e`: stores it under its identifier (overwriting any
    /// previous record) and publishes it to every subscriber, as one
    /// logical operation.
    pub fn insert(&mut self, e: Event)
        requires
            old(self).wf(),
            old(self).next_seq() < u64::MAX,
        ensures
            final(self).wf(),
            final(self).chains() == old(self).chains(),
            final(self).config_state() == old(self).config_state(),
            final(self).capacity() == old(self).capacity(),
            final(self).events() == without_id(old(self).events(), e.id@).push(e),
            final(self).log() == old(self).log().push(e@),
    {
        let published = e.clone();
        self.store.insert(e);
        self.channel.publish(&published);
    }

    /// How many events have ever been published to subscribers.
    pub fn published_count(&self) -> (n: u64)
        requires
            self.wf(),
        ensures
            n == self.next_seq(),
    {
        self.channel.published_count()
    }

    /// A live cursor over everything published from this moment on.
    pub fn watch_events(&self) -> (s: Subscriber)
        requires
            self.wf(),
        ensures
            s.cursor() == self.next_seq(),
    {
        self.channel.subscribe()
    }

    /// One non-blocking poll of a subscription; see `spec_recv`.
    pub fn poll_events(&self, sub: &mut Subscriber) -> (r: RecvOutcome)
        requires
            self.wf(),
        ensures
            recv_outcome_view(r) == spec_recv(self.channel_state(), old(sub).cursor()).0,
            final(sub).cursor() == spec_recv(self.channel_state(), old(sub).cursor()).1,
    {
        self.channel.try_recv(sub)
    }

    /// Synthesizes one event — a fresh identifier, a block number just
    /// past the current high-water mark (or past the seeded base when
    /// the store is empty), the clock's timestamp and a random payload —
    /// and ingests it. Returns a copy of the ingested event.
    pub fn simulate_new_event(&mut self) -> (r: Event)
        requires
            old(self).wf(),
            old(self).next_seq() < u64::MAX,
            spec_max_block(old(self).events()) <= u64::MAX - 4,
        ensures
            final(self).wf(),
            final(self).chains() == old(self).chains(),
            final(self).config_state() == old(self).config_state(),
            final(self).capacity() == old(self).capacity(),
            views_of_events(final(self).events()) == views_of_events(
                without_id(old(self).events(), r.id@),
            ).push(r@),
            final(self).log() == old(self).log().push(r@),
            ({
                let base = if spec_max_block(old(self).events()) >= 10000 {
                    spec_max_block(old(self).events())
                } else {
                    10000u64
                };
                base < r.block_number <= base + 4
            }),
            r.chain_id@ == old(self).chains()[0].id@,
            (r.pallet_name@ == "System"@ && r.event_name@ == "NewAccount"@) || (r.pallet_name@
                == "Timestamp"@ && r.event_name@ == "TimestampSet"@),
    {
        let current_max = self.store.max_block_number();
        let base = if current_max >= 10000 {
            current_max
        } else {
            10000
        };
        let increment = rand_range_u64(1, 4);
        let block_number = base + increment;
        let (pallet_name, event_name, data) = if rand_coin() {
            let mut fields: Vec<(String, JsonValue)> = Vec::new();
            fields.push(("account".to_string(), JsonValue::Str(fresh_event_id())));
            fields.push(("balance".to_string(), JsonValue::Int(rand_range_u64(0, 999) as i64)));
            ("System".to_string(), "NewAccount".to_string(), JsonValue::Object(fields))
        } else {
            let mut fields: Vec<(String, JsonValue)> = Vec::new();
            fields.push(("now".to_string(), JsonValue::Int(clamp_timestamp(now_millis()))));
            ("Timestamp".to_string(), "TimestampSet".to_string(), JsonValue::Object(fields))
        };
        let chain = self.store.primary_chain();
        let e = Event {
            id: fresh_event_id(),
            block_number,
            extrinsic_id: Option::Some(fresh_extrinsic_ref()),
            timestamp: clamp_timestamp(now_millis()),
            pallet_name,
            event_name,
            data,
            chain_id: chain.id,
        };
        let r = e.clone();
        let ghost before: Seq<Event> = self.events();
        self.insert(e);
        proof {
            assert(views_of_events(self.events()) =~= views_of_events(
                without_id(before, r.id@),
            ).push(r@));
        }
        r
    }
}

/// A subscription taken after one ingest returned, and polled once the
/// next ingest has been published, observes that next event (and, by
/// induction over `spec_recv`, everything after it): never anything
/// published before the subscription. `s1` is the service when the
/// subscription was taken — its cursor is `s1`'s publish position —
/// and `s2` any later state that has published more, within the lag
/// capacity.
pub proof fn lemma_subscribe_after_insert(
    s1: SubstrateIndexerService,
    s2: SubstrateIndexerService,
    cur: int,
)
    requires
        s2.wf(),
        cur == s1.log().len(),
        s2.log().len() > cur,
        s2.log().len() - cur <= s2.capacity(),
    ensures
        spec_recv(s2.channel_state(), cur).0 == RecvOutcomeV::Received(s2.log()[cur]),
        spec_recv(s2.channel_state(), cur).1 == cur + 1,
{
    lemma_recv_in_order(s2.channel_state(), cur);
}

} // verus!
