//! The deduplicating batch loader for the event → chain-metadata
//! relationship. Callers enqueue one key each into the open window;
//! flushing the window issues a single batch fetch over the distinct
//! keys and hands every caller the result for its own key.

use vstd::prelude::*;

use crate::indexer::SubstrateIndexerService;
use crate::models::ChainInfo;
use crate::store::{contains_key, pairs_contain, spec_find_chain};

verus! {

/// The key a caller asks the loader to resolve.
#[derive(Debug, PartialEq, Eq)]
pub struct ChainInfoLoaderKey(pub String);

/// Some key in `ks` reads `id`.
pub open spec fn keys_contain(ks: Seq<ChainInfoLoaderKey>, id: Seq<char>) -> bool {
    exists|i: int| 0 <= i < ks.len() && ks[i].0@ == id
}

/// A batching window: the keys of every caller waiting on it, in
/// arrival order, one entry per caller.
pub struct ChainInfoLoader {
    pending: Vec<String>,
}

/// The distinct strings of `keys`, keeping first occurrences in order:
/// no string twice, nothing invented, nothing dropped.
pub fn distinct_keys(keys: &Vec<String>) -> (r: Vec<String>)
    ensures
        forall|i: int, j: int| 0 <= i < j < r@.len() ==> r@[i]@ != r@[j]@,
        forall|i: int| 0 <= i < r@.len() ==> contains_key(keys@, (#[trigger] r@[i])@),
        forall|i: int| 0 <= i < keys@.len() ==> contains_key(r@, (#[trigger] keys@[i])@),
{
    let mut out: Vec<String> = Vec::new();
    let mut i: usize = 0;
    while i < keys.len()
        invariant
            0 <= i <= keys@.len(),
            forall|p: int, q: int| 0 <= p < q < out@.len() ==> out@[p]@ != out@[q]@,
            forall|p: int| 0 <= p < out@.len() ==> contains_key(keys@, (#[trigger] out@[p])@),
            forall|p: int| 0 <= p < i ==> contains_key(out@, (#[trigger] keys@[p])@),
        decreases keys.len() - i,
    {
        let key = &keys[i];
        let mut seen = false;
        let mut k: usize = 0;
        while k < out.len()
            invariant
                0 <= k <= out@.len(),
                seen <==> exists|t: int| 0 <= t < k && (#[trigger] out@[t])@ == key@,
            decreases out.len() - k,
        {
            if out[k] == *key {
                seen = true;
            }
            k = k + 1;
        }
        let ghost prev: Seq<String> = out@;
        if !seen {
            out.push(key.clone());
        }
        proof {
            assert forall|p: int| 0 <= p < i + 1 implies contains_key(
                out@,
                (#[trigger] keys@[p])@,
            ) by {
                if p < i {
                    let t = choose|t: int| 0 <= t < prev.len() && (#[trigger] prev[t])@ == keys@[p]@;
                    assert(out@[t]@ == keys@[p]@);
                } else {
                    if seen {
                        let t = choose|t: int| 0 <= t < prev.len() && (#[trigger] prev[t])@ == key@;
                        assert(out@[t]@ == keys@[p]@);
                    } else {
                        assert(out@[out@.len() - 1]@ == keys@[p]@);
                    }
                }
            }
            assert forall|p: int| 0 <= p < out@.len() implies contains_key(
                keys@,
                (#[trigger] out@[p])@,
            ) by {
                if p < prev.len() {
                    assert(prev[p] == out@[p]);
                } else {
                    assert(keys@[i as int]@ == out@[p]@);
                }
            }
        }
        i = i + 1;
    }
    out
}

/// First value paired with `key`, if any.
fn lookup_pair(pairs: &Vec<(String, ChainInfo)>, key: &String) -> (r: Option<ChainInfo>)
    ensures
        match r {
            Option::Some(c) => exists|k: int|
                0 <= k < pairs@.len() && (#[trigger] pairs@[k]).0@ == key@ && pairs@[k].1@ == c@,
            Option::None => !pairs_contain(pairs@, key@),
        },
{
    let mut k: usize = 0;
    while k < pairs.len()
        invariant
            0 <= k <= pairs@.len(),
            forall|t: int| 0 <= t < k ==> (#[trigger] pairs@[t]).0@ != key@,
        decreases pairs.len() - k,
    {
        if pairs[k].0 == *key {
            let c = pairs[k].1.clone();
            return Option::Some(c);
        }
        k = k + 1;
    }
    Option::None
}

impl ChainInfoLoader {
    /// Views of the keys waiting in the open window, in arrival order.
    pub closed spec fn pending(&self) -> Seq<Seq<char>> {
        Seq::new(self.pending@.len(), |i: int| self.pending@[i]@)
    }

    /// An empty window.
    pub fn new() -> (l: Self)
        ensures
            l.pending() == Seq::<Seq<char>>::empty(),
    {
        let l = ChainInfoLoader { pending: Vec::new() };
        proof {
            assert(l.pending() =~= Seq::<Seq<char>>::empty());
        }
        l
    }

    /// Joins the open window: the caller's key is appended and its
    /// ticket — the index its result will sit at after the flush — is
    /// returned.
    pub fn load_one(&mut self, key: &ChainInfoLoaderKey) -> (t: usize)
        ensures
            final(self).pending() == old(self).pending().push(key.0@),
            t == old(self).pending().len(),
    {
        let t = self.pending.len();
        self.pending.push(key.0.clone());
        proof {
            assert(final(self).pending() =~= old(self).pending().push(key.0@));
        }
        t
    }

    /// Closes the window: issues the underlying batch fetch exactly
    /// once, over the distinct pending keys, and distributes one result
    /// per waiting caller — the chain record stored under the caller's
    /// key, or the normal negative result when no record carries it.
    /// The window is empty afterwards.
    pub fn flush(&mut self, service: &SubstrateIndexerService) -> (rs: Vec<Option<ChainInfo>>)
        requires
            service.wf(),
        ensures
            final(self).pending() == Seq::<Seq<char>>::empty(),
            rs@.len() == old(self).pending().len(),
            forall|i: int|
                0 <= i < rs@.len() ==> match (
                    #[trigger] rs@[i],
                    spec_find_chain(service.chains(), old(self).pending()[i]),
                ) {
                    (Option::Some(c), Option::Some(sc)) => c@ == sc@,
                    (Option::None, Option::None) => true,
                    _ => false,
                },
    {
        let keys = distinct_keys(&self.pending);
        let pairs = service.get_chain_infos_batch(&keys);
        let mut rs: Vec<Option<ChainInfo>> = Vec::new();
        let mut i: usize = 0;
        while i < self.pending.len()
            invariant
                service.wf(),
                0 <= i <= self.pending@.len(),
                rs@.len() == i,
                forall|p: int, q: int| 0 <= p < q < keys@.len() ==> keys@[p]@ != keys@[q]@,
                forall|p: int|
                    0 <= p < self.pending@.len() ==> contains_key(
                        keys@,
                        (#[trigger] self.pending@[p])@,
                    ),
                forall|k: int|
                    0 <= k < pairs@.len() ==> match spec_find_chain(
                        service.chains(),
                        (#[trigger] pairs@[k]).0@,
                    ) {
                        Option::Some(c) => pairs@[k].1@ == c@,
                        Option::None => false,
                    },
                forall|p: int|
                    0 <= p < keys@.len() && spec_find_chain(service.chains(), (#[trigger] keys@[p])@)
                        is Some ==> pairs_contain(pairs@, keys@[p]@),
                forall|p: int|
                    0 <= p < i ==> match (
                        #[trigger] rs@[p],
                        spec_find_chain(service.chains(), self.pending@[p]@),
                    ) {
                        (Option::Some(c), Option::Some(sc)) => c@ == sc@,
                        (Option::None, Option::None) => true,
                        _ => false,
                    },
            decreases self.pending.len() - i,
        {
            let key = &self.pending[i];
            let r = lookup_pair(&pairs, key);
            proof {
                match spec_find_chain(service.chains(), key@) {
                    Option::Some(sc) => {
                        let t = choose|t: int| 0 <= t < keys@.len() && (#[trigger] keys@[t])@ == key@;
                        assert(pairs_contain(pairs@, key@));
                        match &r {
                            Option::Some(c) => {
                                let k = choose|k: int|
                                    0 <= k < pairs@.len() && (#[trigger] pairs@[k]).0@ == key@
                                        && pairs@[k].1@ == c@;
                                assert(spec_find_chain(service.chains(), pairs@[k].0@) is Some);
                            },
                            Option::None => {
                                assert(false);
                            },
                        }
                    },
                    Option::None => {
                        match &r {
                            Option::Some(c) => {
                                let k = choose|k: int|
                                    0 <= k < pairs@.len() && (#[trigger] pairs@[k]).0@ == key@
                                        && pairs@[k].1@ == c@;
                                assert(spec_find_chain(service.chains(), pairs@[k].0@) is None);
                                assert(false);
                            },
                            Option::None => {},
                        }
                    },
                }
            }
            rs.push(r);
            i = i + 1;
        }
        self.pending = Vec::new();
        proof {
            assert(final(self).pending() =~= Seq::<Seq<char>>::empty());
        }
        rs
    }

    /// One batch resolution, as the window-closing fetch performs it:
    /// resolves each given key against the service's metadata, pairing
    /// every key that exists with its record.
    pub fn load(
        &self,
        service: &SubstrateIndexerService,
        keys: &Vec<ChainInfoLoaderKey>,
    ) -> (r: Vec<(String, ChainInfo)>)
        requires
            service.wf(),
        ensures
            forall|k: int|
                0 <= k < r@.len() ==> match spec_find_chain(
                    service.chains(),
                    (#[trigger] r@[k]).0@,
                ) {
                    Option::Some(c) => r@[k].1@ == c@,
                    Option::None => false,
                },
            forall|k: int| 0 <= k < r@.len() ==> keys_contain(keys@, (#[trigger] r@[k]).0@),
            forall|i: int|
                0 <= i < keys@.len() && spec_find_chain(
                    service.chains(),
                    (#[trigger] keys@[i]).0@,
                ) is Some ==> pairs_contain(r@, keys@[i].0@),
            forall|k1: int, k2: int| 0 <= k1 < k2 < r@.len() ==> r@[k1].0@ != r@[k2].0@,
    {
        let mut ids: Vec<String> = Vec::new();
        let mut i: usize = 0;
        while i < keys.len()
            invariant
                0 <= i <= keys@.len(),
                ids@.len() == i,
                forall|p: int| 0 <= p < i ==> (#[trigger] ids@[p])@ == keys@[p].0@,
            decreases keys.len() - i,
        {
            ids.push(keys[i].0.clone());
            i = i + 1;
        }
        let r = service.get_chain_infos_batch(&ids);
        proof {
            assert forall|k: int| 0 <= k < r@.len() implies keys_contain(
                keys@,
                (#[trigger] r@[k]).0@,
            ) by {
                assert(contains_key(ids@, r@[k].0@));
                let t = choose|t: int| 0 <= t < ids@.len() && (#[trigger] ids@[t])@ == r@[k].0@;
                assert(keys@[t].0@ == r@[k].0@);
            }
            assert forall|i: int|
                0 <= i < keys@.len() && spec_find_chain(
                    service.chains(),
                    (#[trigger] keys@[i]).0@,
                ) is Some implies pairs_contain(r@, keys@[i].0@) by {
                assert(ids@[i]@ == keys@[i].0@);
                assert(spec_find_chain(service.chains(), ids@[i]@) is Some);
            }
        }
        r
    }
}

} // verus!
