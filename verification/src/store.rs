//! The authoritative in-memory store: event records keyed by identifier,
//! chain metadata, point and filtered-list queries, and the block-number
//! high-water mark.

use vstd::prelude::*;

use crate::models::{ChainInfo, Event, EventFilterInput, EventFilterV, EventV};
use crate::models::event_matches;
use crate::models::opt_filter_matches;

verus! {

broadcast use vstd::seq_lib::group_to_multiset_ensures;

/// Views of a sequence of events, element by element.
pub open spec fn views_of_events(s: Seq<Event>) -> Seq<EventV> {
    Seq::new(s.len(), |i: int| s[i]@)
}

/// No two events share an identifier.
pub open spec fn unique_event_ids(s: Seq<Event>) -> bool {
    forall|i: int, j: int| 0 <= i < j < s.len() ==> s[i].id@ != s[j].id@
}

/// No two chain records share an identifier.
pub open spec fn unique_chain_ids(s: Seq<ChainInfo>) -> bool {
    forall|i: int, j: int| 0 <= i < j < s.len() ==> s[i].id@ != s[j].id@
}

/// Some event in `s` carries identifier `id`.
pub open spec fn contains_event_id(s: Seq<Event>, id: Seq<char>) -> bool {
    exists|i: int| 0 <= i < s.len() && s[i].id@ == id
}

/// The events of `s` whose identifier differs from `id`, in order.
pub open spec fn without_id(s: Seq<Event>, id: Seq<char>) -> Seq<Event>
    decreases s.len(),
{
    if s.len() == 0 {
        Seq::empty()
    } else {
        let rest = without_id(s.drop_last(), id);
        if s.last().id@ != id {
            rest.push(s.last())
        } else {
            rest
        }
    }
}

/// Views of the events of `s` that satisfy every present predicate of
/// `f`, in order.
pub open spec fn filtered_views(s: Seq<Event>, f: Option<EventFilterV>) -> Seq<EventV>
    decreases s.len(),
{
    if s.len() == 0 {
        Seq::empty()
    } else {
        let rest = filtered_views(s.drop_last(), f);
        if opt_filter_matches(f, s.last()@) {
            rest.push(s.last()@)
        } else {
            rest
        }
    }
}

/// View of an optional filter.
pub open spec fn opt_filter_view(f: Option<EventFilterInput>) -> Option<EventFilterV> {
    match f {
        Option::Some(f) => Option::Some(f@),
        Option::None => Option::None,
    }
}

/// Unfolding step of `without_id` over an appended element.
pub proof fn lemma_without_id_push(s: Seq<Event>, e: Event, id: Seq<char>)
    ensures
        without_id(s.push(e), id) == if e.id@ != id {
            without_id(s, id).push(e)
        } else {
            without_id(s, id)
        },
{
    assert(s.push(e).drop_last() =~= s);
    assert(s.push(e).last() == e);
}

/// Unfolding step of `filtered_views` over an appended element.
pub proof fn lemma_filtered_views_push(s: Seq<Event>, e: Event, f: Option<EventFilterV>)
    ensures
        filtered_views(s.push(e), f) == if opt_filter_matches(f, e@) {
            filtered_views(s, f).push(e@)
        } else {
            filtered_views(s, f)
        },
{
    assert(s.push(e).drop_last() =~= s);
    assert(s.push(e).last() == e);
}

/// `without_id` keeps identifiers pairwise distinct, drops every record
/// under `id`, and invents no identifier.
pub proof fn lemma_without_id_props(s: Seq<Event>, id: Seq<char>)
    requires
        unique_event_ids(s),
    ensures
        without_id(s, id).len() <= s.len(),
        unique_event_ids(without_id(s, id)),
        forall|k: int|
            0 <= k < without_id(s, id).len() ==> (#[trigger] without_id(s, id)[k]).id@ != id,
        forall|k: int|
            0 <= k < without_id(s, id).len() ==> contains_event_id(
                s,
                (#[trigger] without_id(s, id)[k]).id@,
            ),
        forall|k: int| 0 <= k < without_id(s, id).len() ==> s.contains(#[trigger] without_id(s, id)[k]),
    decreases s.len(),
{
    if s.len() > 0 {
        let rest = s.drop_last();
        let last = s.last();
        let w = without_id(s, id);
        let wr = without_id(rest, id);
        assert(forall|i: int| 0 <= i < rest.len() ==> rest[i] == s[i]);
        assert(unique_event_ids(rest));
        lemma_without_id_props(rest, id);
        assert(forall|k: int|
            0 <= k < wr.len() ==> contains_event_id(s, (#[trigger] wr[k]).id@)) by {
            assert forall|k: int| 0 <= k < wr.len() implies contains_event_id(
                s,
                (#[trigger] wr[k]).id@,
            ) by {
                let j = choose|j: int| 0 <= j < rest.len() && rest[j].id@ == wr[k].id@;
                assert(s[j].id@ == wr[k].id@);
            }
        }
        assert forall|k: int| 0 <= k < wr.len() implies s.contains(#[trigger] wr[k]) by {
            let j = choose|j: int| 0 <= j < rest.len() && rest[j] == wr[k];
            assert(s[j] == wr[k]);
        }
        if last.id@ != id {
            assert(w == wr.push(last));
            assert(s[s.len() - 1] == last);
            assert(s.contains(last));
            assert forall|k: int| 0 <= k < wr.len() implies (#[trigger] wr[k]).id@ != last.id@ by {
                let j = choose|j: int| 0 <= j < rest.len() && rest[j].id@ == wr[k].id@;
                assert(s[j].id@ != s[s.len() - 1].id@);
            }
            assert(unique_event_ids(w));
        } else {
            assert(w == wr);
        }
    }
}

/// `without_id` leaves a sequence alone when no record carries `id`.
pub proof fn lemma_without_id_noop(s: Seq<Event>, id: Seq<char>)
    requires
        forall|k: int| 0 <= k < s.len() ==> (#[trigger] s[k]).id@ != id,
    ensures
        without_id(s, id) == s,
    decreases s.len(),
{
    if s.len() > 0 {
        let rest = s.drop_last();
        assert(forall|k: int| 0 <= k < rest.len() ==> (#[trigger] rest[k]).id@ != id) by {
            assert(forall|k: int| 0 <= k < rest.len() ==> rest[k] == s[k]);
        }
        lemma_without_id_noop(rest, id);
        assert(s[s.len() - 1].id@ != id);
        assert(without_id(s, id) == rest.push(s.last()));
        assert(rest.push(s.last()) =~= s);
    }
}

/// Some string in `s` reads `id`.
pub open spec fn contains_key(s: Seq<String>, id: Seq<char>) -> bool {
    exists|i: int| 0 <= i < s.len() && s[i]@ == id
}

/// Some pair in `s` is keyed by `id`.
pub open spec fn pairs_contain(s: Seq<(String, ChainInfo)>, id: Seq<char>) -> bool {
    exists|k: int| 0 <= k < s.len() && s[k].0@ == id
}

/// Appending a pair keeps every key already present and adds the new one.
pub proof fn lemma_pairs_contain_push(s: Seq<(String, ChainInfo)>, p: (String, ChainInfo), id: Seq<char>)
    ensures
        pairs_contain(s, id) ==> pairs_contain(s.push(p), id),
        p.0@ == id ==> pairs_contain(s.push(p), id),
{
    if pairs_contain(s, id) {
        let k = choose|k: int| 0 <= k < s.len() && s[k].0@ == id;
        assert(s.push(p)[k].0@ == id);
    }
    if p.0@ == id {
        assert(s.push(p)[s.len() as int].0@ == id);
    }
}

/// A key present in a prefix is present in the longer sequence.
pub proof fn lemma_pairs_contain_push_keep(
    a: Seq<(String, ChainInfo)>,
    b: Seq<(String, ChainInfo)>,
    id: Seq<char>,
)
    requires
        a.len() <= b.len(),
        forall|t: int| 0 <= t < a.len() ==> a[t] == b[t],
        pairs_contain(a, id),
    ensures
        pairs_contain(b, id),
{
    let k = choose|k: int| 0 <= k < a.len() && a[k].0@ == id;
    assert(b[k].0@ == id);
}

/// The first chain record in `s` with identifier `id`, if any.
pub open spec fn spec_find_chain(s: Seq<ChainInfo>, id: Seq<char>) -> Option<ChainInfo>
    decreases s.len(),
{
    if s.len() == 0 {
        Option::None
    } else if s[0].id@ == id {
        Option::Some(s[0])
    } else {
        spec_find_chain(s.drop_first(), id)
    }
}

/// Highest block number among the events of `s`, or 0 when `s` is empty.
pub open spec fn spec_max_block(s: Seq<Event>) -> u64
    decreases s.len(),
{
    if s.len() == 0 {
        0u64
    } else {
        let rest = spec_max_block(s.drop_first());
        if s[0].block_number >= rest {
            s[0].block_number
        } else {
            rest
        }
    }
}

/// Timestamps never increase along `s`: newest first.
pub open spec fn sorted_desc(s: Seq<Event>) -> bool {
    forall|i: int, j: int| 0 <= i < j < s.len() ==> s[i].timestamp >= s[j].timestamp
}

/// Sorts events by timestamp, newest first, keeping exactly the same
/// records (as a multiset of views).
pub fn sort_events_by_timestamp_desc(v: Vec<Event>) -> (r: Vec<Event>)
    ensures
        sorted_desc(r@),
        r@.len() == v@.len(),
        views_of_events(r@).to_multiset() == views_of_events(v@).to_multiset(),
{
    let mut rest = v;
    let ghost orig: Seq<Event> = rest@;
    let mut out: Vec<Event> = Vec::new();
    while rest.len() > 0
        invariant
            sorted_desc(out@),
            out@.len() + rest@.len() == orig.len(),
            forall|p: int, q: int|
                0 <= p < out@.len() && 0 <= q < rest@.len() ==> out@[p].timestamp
                    >= rest@[q].timestamp,
            views_of_events(out@).to_multiset().add(views_of_events(rest@).to_multiset())
                =~= views_of_events(orig).to_multiset(),
        decreases rest.len(),
    {
        let mut m: usize = 0;
        let mut i: usize = 1;
        while i < rest.len()
            invariant
                0 <= m < rest@.len(),
                m < i <= rest@.len(),
                forall|j: int| 0 <= j < i ==> rest@[j].timestamp <= rest@[m as int].timestamp,
            decreases rest.len() - i,
        {
            if rest[i].timestamp > rest[m].timestamp {
                m = i;
            }
            i = i + 1;
        }
        let ghost rest_before: Seq<Event> = rest@;
        let ghost out_before: Seq<Event> = out@;
        let picked = rest.remove(m);
        out.push(picked);
        proof {
            assert(views_of_events(rest@) =~= views_of_events(rest_before).remove(m as int));
            assert(views_of_events(out@) =~= views_of_events(out_before).push(picked@));
            assert(views_of_events(rest_before)[m as int] == picked@);
            assert(views_of_events(out@).to_multiset().add(views_of_events(rest@).to_multiset())
                =~= views_of_events(orig).to_multiset());
        }
    }
    out
}

/// Single source of truth for events and chain metadata.
pub struct EventStore {
    events: Vec<Event>,
    chains: Vec<ChainInfo>,
}

impl EventStore {
    /// The stored events, in insertion order.
    pub closed spec fn events(&self) -> Seq<Event> {
        self.events@
    }

    /// The stored chain records; the first one is the active chain.
    pub closed spec fn chains(&self) -> Seq<ChainInfo> {
        self.chains@
    }

    /// Internal consistency: identifiers are unique and at least one
    /// chain record exists.
    pub open spec fn wf(&self) -> bool {
        &&& unique_event_ids(self.events())
        &&& unique_chain_ids(self.chains())
        &&& self.chains().len() >= 1
    }

    /// An empty store owning one chain record.
    pub fn new(chain: ChainInfo) -> (s: Self)
        ensures
            s.wf(),
            s.events() == Seq::<Event>::empty(),
            s.chains() =~= seq![chain],
    {
        let mut chains: Vec<ChainInfo> = Vec::new();
        chains.push(chain);
        EventStore { events: Vec::new(), chains }
    }

    /// Adds `e`, overwriting any record already stored under `e.id`:
    /// afterwards the store holds every old event with a different
    /// identifier, and `e` itself at the end.
    pub fn insert(&mut self, e: Event)
        requires
            old(self).wf(),
        ensures
            final(self).wf(),
            final(self).chains() == old(self).chains(),
            final(self).events() == without_id(old(self).events(), e.id@).push(e),
    {
        let ghost orig: Seq<Event> = self.events@;
        let mut kept: Vec<Event> = Vec::new();
        while self.events.len() > 0
            invariant
                self.chains@ == old(self).chains@,
                orig =~= orig.take(orig.len() - self.events@.len()) + self.events@,
                kept@ =~= without_id(orig.take(orig.len() - self.events@.len()), e.id@),
            decreases self.events.len(),
        {
            let ghost k: int = orig.len() - self.events@.len();
            let x = self.events.remove(0);
            proof {
                assert(orig[k] == x);
                assert(orig.take(k + 1) =~= orig.take(k).push(x));
                lemma_without_id_push(orig.take(k), x, e.id@);
            }
            if !(x.id == e.id) {
                kept.push(x);
            }
            proof {
                assert(orig =~= orig.take(k + 1) + self.events@);
            }
        }
        proof {
            assert(orig.take(orig.len() as int) =~= orig);
        }
        kept.push(e);
        self.events = kept;
        proof {
            lemma_without_id_props(orig, e.id@);
            assert(unique_event_ids(without_id(orig, e.id@).push(e)));
        }
    }

    /// Exact point lookup: `Some` holds the record stored under `id`,
    /// `None` means no record carries `id`.
    pub fn get_by_id(&self, id: &String) -> (r: Option<Event>)
        requires
            self.wf(),
        ensures
            match r {
                Option::Some(ev) => {
                    &&& ev.id@ == id@
                    &&& contains_event_id(self.events(), id@)
                    &&& forall|i: int|
                        0 <= i < self.events().len() && (#[trigger] self.events()[i]).id@ == id@
                            ==> ev@ == self.events()[i]@
                },
                Option::None => !contains_event_id(self.events(), id@),
            },
    {
        let mut i: usize = 0;
        while i < self.events.len()
            invariant
                self.wf(),
                0 <= i <= self.events@.len(),
                forall|j: int| 0 <= j < i ==> (#[trigger] self.events@[j]).id@ != id@,
            decreases self.events.len() - i,
        {
            if self.events[i].id == *id {
                let found = self.events[i].clone();
                return Option::Some(found);
            }
            i = i + 1;
        }
        Option::None
    }

    /// The filtered events, newest first: exactly those stored events
    /// that satisfy every present predicate of `filter`.
    pub fn list(&self, filter: &Option<EventFilterInput>) -> (r: Vec<Event>)
        requires
            self.wf(),
        ensures
            sorted_desc(r@),
            views_of_events(r@).to_multiset() == filtered_views(
                self.events(),
                opt_filter_view(*filter),
            ).to_multiset(),
    {
        let ghost fv = opt_filter_view(*filter);
        let mut picked: Vec<Event> = Vec::new();
        let mut i: usize = 0;
        while i < self.events.len()
            invariant
                0 <= i <= self.events@.len(),
                fv == opt_filter_view(*filter),
                views_of_events(picked@) =~= filtered_views(self.events@.take(i as int), fv),
            decreases self.events.len() - i,
        {
            let ghost before: Seq<EventV> = views_of_events(picked@);
            let matches_here = match filter {
                Option::Some(f) => event_matches(f, &self.events[i]),
                Option::None => true,
            };
            proof {
                assert(matches_here == opt_filter_matches(fv, self.events@[i as int]@));
                assert(self.events@.take(i + 1) =~= self.events@.take(i as int).push(
                    self.events@[i as int],
                ));
                lemma_filtered_views_push(self.events@.take(i as int), self.events@[i as int], fv);
            }
            if matches_here {
                picked.push(self.events[i].clone());
                proof {
                    assert(views_of_events(picked@) =~= before.push(self.events@[i as int]@));
                }
            }
            i = i + 1;
        }
        proof {
            assert(self.events@.take(self.events@.len() as int) =~= self.events@);
        }
        sort_events_by_timestamp_desc(picked)
    }

    /// Current high-water mark of block numbers, 0 when the store is empty.
    pub fn max_block_number(&self) -> (r: u64)
        ensures
            r == spec_max_block(self.events()),
    {
        let mut acc: u64 = 0;
        let mut i: usize = self.events.len();
        proof {
            assert(self.events@.skip(self.events@.len() as int) =~= Seq::<Event>::empty());
        }
        while i > 0
            invariant
                0 <= i <= self.events@.len(),
                acc == spec_max_block(self.events@.skip(i as int)),
            decreases i,
    {
            i = i - 1;
            let b = self.events[i].block_number;
            proof {
                assert(self.events@.skip(i as int).drop_first() =~= self.events@.skip(i + 1));
                assert(self.events@.skip(i as int)[0] == self.events@[i as int]);
            }
            if b >= acc {
                acc = b;
            }
        }
        proof {
            assert(self.events@.skip(0) =~= self.events@);
        }
        acc
    }

    /// First chain record carrying `id`, if one exists, as a clone.
    pub fn find_chain(&self, id: &String) -> (r: Option<ChainInfo>)
        ensures
            match (r, spec_find_chain(self.chains(), id@)) {
                (Option::Some(a), Option::Some(b)) => a@ == b@,
                (Option::None, Option::None) => true,
                _ => false,
            },
    {
        let mut i: usize = 0;
        proof {
            assert(self.chains@.skip(0) =~= self.chains@);
        }
        while i < self.chains.len()
            invariant
                0 <= i <= self.chains@.len(),
                spec_find_chain(self.chains@, id@) == spec_find_chain(
                    self.chains@.skip(i as int),
                    id@,
                ),
            decreases self.chains.len() - i,
        {
            proof {
                assert(self.chains@.skip(i as int)[0] == self.chains@[i as int]);
                assert(self.chains@.skip(i as int).drop_first() =~= self.chains@.skip(i + 1));
            }
            if self.chains[i].id == *id {
                return Option::Some(self.chains[i].clone());
            }
            i = i + 1;
        }
        proof {
            assert(self.chains@.skip(self.chains@.len() as int) =~= Seq::<ChainInfo>::empty());
        }
        Option::None
    }

    /// The active chain record.
    pub fn primary_chain(&self) -> (r: ChainInfo)
        requires
            self.wf(),
        ensures
            r@ == self.chains()[0]@,
    {
        self.chains[0].clone()
    }

    /// Batch metadata lookup: one pair per requested identifier that
    /// exists, each mapping to the stored record; requested identifiers
    /// that are absent simply do not appear, and repeated identifiers
    /// yield one pair.
    pub fn get_chain_infos_batch(&self, ids: &Vec<String>) -> (r: Vec<(String, ChainInfo)>)
        ensures
            forall|k: int|
                0 <= k < r@.len() ==> match spec_find_chain(self.chains(), (#[trigger] r@[k]).0@) {
                    Option::Some(c) => r@[k].1@ == c@,
                    Option::None => false,
                },
            forall|k: int| 0 <= k < r@.len() ==> contains_key(ids@, (#[trigger] r@[k]).0@),
            forall|i: int|
                0 <= i < ids@.len() && spec_find_chain(self.chains(), (#[trigger] ids@[i])@)
                    is Some ==> pairs_contain(r@, ids@[i]@),
            forall|k1: int, k2: int| 0 <= k1 < k2 < r@.len() ==> r@[k1].0@ != r@[k2].0@,
    {
        let mut out: Vec<(String, ChainInfo)> = Vec::new();
        let mut i: usize = 0;
        while i < ids.len()
            invariant
                0 <= i <= ids@.len(),
                forall|k: int|
                    0 <= k < out@.len() ==> match spec_find_chain(
                        self.chains(),
                        (#[trigger] out@[k]).0@,
                    ) {
                        Option::Some(c) => out@[k].1@ == c@,
                        Option::None => false,
                    },
                forall|k: int| 0 <= k < out@.len() ==> contains_key(ids@, (#[trigger] out@[k]).0@),
                forall|j: int|
                    0 <= j < i && spec_find_chain(self.chains(), (#[trigger] ids@[j])@) is Some
                        ==> pairs_contain(out@, ids@[j]@),
                forall|k1: int, k2: int| 0 <= k1 < k2 < out@.len() ==> out@[k1].0@ != out@[k2].0@,
            decreases ids.len() - i,
        {
            let id = &ids[i];
            let mut seen = false;
            let mut k: usize = 0;
            while k < out.len()
                invariant
                    0 <= k <= out@.len(),
                    seen <==> pairs_contain(out@.take(k as int), id@),
                decreases out.len() - k,
            {
                proof {
                    assert(out@.take(k + 1) =~= out@.take(k as int).push(out@[k as int]));
                    lemma_pairs_contain_push(out@.take(k as int), out@[k as int], id@);
                    assert(pairs_contain(out@.take(k + 1), id@) ==> pairs_contain(
                        out@.take(k as int),
                        id@,
                    ) || out@[k as int].0@ == id@) by {
                        if pairs_contain(out@.take(k + 1), id@) {
                            let t = choose|t: int|
                                0 <= t < k + 1 && (#[trigger] out@.take(k + 1)[t]).0@ == id@;
                            if t < k {
                                assert(out@.take(k as int)[t].0@ == id@);
                            }
                        }
                    }
                }
                if out[k].0 == *id {
                    seen = true;
                }
                k = k + 1;
            }
            proof {
                assert(out@.take(out@.len() as int) =~= out@);
            }
            let ghost prev: Seq<(String, ChainInfo)> = out@;
            if !seen {
                match self.find_chain(id) {
                    Option::Some(c) => {
                        out.push((id.clone(), c));
                        proof {
                            assert(forall|t: int|
                                0 <= t < prev.len() ==> (#[trigger] prev[t]).0@ != id@);
                            assert(contains_key(ids@, id@)) by {
                                assert(ids@[i as int]@ == id@);
                            }
                        }
                    },
                    Option::None => {},
                }
            }
            proof {
                assert forall|j: int|
                    0 <= j < i + 1 && spec_find_chain(self.chains(), (#[trigger] ids@[j])@)
                        is Some implies pairs_contain(out@, ids@[j]@) by {
                    if j < i {
                        lemma_pairs_contain_push_keep(prev, out@, ids@[j]@);
                    } else {
                        if seen {
                            assert(pairs_contain(prev, id@));
                            lemma_pairs_contain_push_keep(prev, out@, id@);
                        } else {
                            assert(out@[out@.len() - 1].0@ == id@);
                        }
                    }
                }
            }
            i = i + 1;
        }
        out
    }
}

/// Inserting an event and then looking its identifier up finds exactly
/// that event: in the updated store the only record carrying `e.id` is
/// `e` itself.
pub proof fn lemma_insert_then_get(s: Seq<Event>, e: Event)
    requires
        unique_event_ids(s),
    ensures
        contains_event_id(without_id(s, e.id@).push(e), e.id@),
        forall|i: int|
            0 <= i < without_id(s, e.id@).push(e).len() && (#[trigger] without_id(
                s,
                e.id@,
            ).push(e)[i]).id@ == e.id@ ==> without_id(s, e.id@).push(e)[i] == e,
{
    lemma_without_id_props(s, e.id@);
    let w = without_id(s, e.id@).push(e);
    assert(w[w.len() - 1] == e);
}

/// Overwrite is idempotent: inserting `e1` and then `e2` under the same
/// identifier leaves the store exactly as inserting `e2` alone would —
/// one record under that identifier, holding the later values.
pub proof fn lemma_insert_overwrites(s: Seq<Event>, e1: Event, e2: Event)
    requires
        unique_event_ids(s),
        e1.id@ == e2.id@,
    ensures
        without_id(without_id(s, e1.id@).push(e1), e2.id@).push(e2) == without_id(
            s,
            e2.id@,
        ).push(e2),
{
    let w = without_id(s, e1.id@);
    lemma_without_id_props(s, e1.id@);
    lemma_without_id_push(w, e1, e2.id@);
    lemma_without_id_noop(w, e2.id@);
}

} // verus!
