//! Core data model: chain metadata, events, list filters, and the
//! JSON-shaped structured payload carried by every event.

use vstd::prelude::*;

verus! {

/// A JSON-like structured value: the opaque payload attached to an event.
/// Numbers are modelled as signed 64-bit integers.
#[derive(Debug, PartialEq, Eq)]
pub enum JsonValue {
    Null,
    Bool(bool),
    Int(i64),
    Str(String),
    Array(Vec<JsonValue>),
    Object(Vec<(String, JsonValue)>),
}

/// Mathematical shape of a `JsonValue`: strings become `Seq<char>`,
/// vectors become `Seq`.
pub enum JsonSpec {
    Null,
    Bool(bool),
    Int(int),
    Str(Seq<char>),
    Array(Seq<JsonSpec>),
    Object(Seq<(Seq<char>, JsonSpec)>),
}

pub open spec fn json_view(v: JsonValue) -> JsonSpec
    decreases v, 0int,
{
    match v {
        JsonValue::Null => JsonSpec::Null,
        JsonValue::Bool(b) => JsonSpec::Bool(b),
        JsonValue::Int(n) => JsonSpec::Int(n as int),
        JsonValue::Str(s) => JsonSpec::Str(s@),
        JsonValue::Array(items) => JsonSpec::Array(json_view_seq(items@)),
        JsonValue::Object(fields) => JsonSpec::Object(json_view_fields(fields@)),
    }
}

pub open spec fn json_view_seq(s: Seq<JsonValue>) -> Seq<JsonSpec>
    decreases s, s.len(),
{
    if s.len() <= 0 {
        Seq::empty()
    } else {
        seq![json_view(s[0])] + json_view_seq(s.drop_first())
    }
}

pub open spec fn json_view_fields(s: Seq<(String, JsonValue)>) -> Seq<(Seq<char>, JsonSpec)>
    decreases s, s.len(),
{
    if s.len() <= 0 {
        Seq::empty()
    } else {
        seq![(s[0].0@, json_view(s[0].1))] + json_view_fields(s.drop_first())
    }
}

impl View for JsonValue {
    type V = JsonSpec;

    open spec fn view(&self) -> JsonSpec {
        json_view(*self)
    }
}

pub broadcast proof fn lemma_json_view_seq_len(s: Seq<JsonValue>)
    ensures
        (#[trigger] json_view_seq(s)).len() == s.len(),
        forall|i: int| 0 <= i < s.len() ==> json_view_seq(s)[i] == json_view(s[i]),
    decreases s.len(),
{
    if s.len() > 0 {
        lemma_json_view_seq_len(s.drop_first());
    }
}

pub broadcast proof fn lemma_json_view_fields_len(s: Seq<(String, JsonValue)>)
    ensures
        (#[trigger] json_view_fields(s)).len() == s.len(),
        forall|i: int|
            0 <= i < s.len() ==> json_view_fields(s)[i] == (s[i].0@, json_view(s[i].1)),
    decreases s.len(),
{
    if s.len() > 0 {
        lemma_json_view_fields_len(s.drop_first());
    }
}

impl Clone for JsonValue {
    /// Cloning preserves the mathematical value of the payload.
    fn clone(&self) -> (r: Self)
        ensures
            r@ == self@,
        decreases self,
    {
        broadcast use lemma_json_view_seq_len, lemma_json_view_fields_len;

        match self {
            JsonValue::Null => JsonValue::Null,
            JsonValue::Bool(b) => JsonValue::Bool(*b),
            JsonValue::Int(n) => JsonValue::Int(*n),
            JsonValue::Str(s) => JsonValue::Str(s.clone()),
            JsonValue::Array(items) => {
                let mut out: Vec<JsonValue> = Vec::new();
                let mut i: usize = 0;
                while i < items.len()
                    invariant
                        *self == JsonValue::Array(*items),
                        0 <= i <= items.len(),
                        out.len() == i,
                        forall|j: int| 0 <= j < i ==> out[j]@ == items[j]@,
                    decreases items.len() - i,
                {
                    proof {
                        assert(decreases_to!(*self => self->Array_0));
                        assert(self->Array_0 == *items);
                        assert(decreases_to!(*items => items@));
                        assert(decreases_to!(items@ => items@[i as int]));
                    }
                    out.push(items[i].clone());
                    i = i + 1;
                }
                proof {
                    assert(json_view_seq(out@) =~= json_view_seq(items@)) by {
                        assert(forall|j: int|
                            0 <= j < items@.len() ==> json_view_seq(out@)[j] == json_view_seq(
                                items@,
                            )[j]);
                    }
                }
                JsonValue::Array(out)
            },
            JsonValue::Object(fields) => {
                let mut out: Vec<(String, JsonValue)> = Vec::new();
                let mut i: usize = 0;
                while i < fields.len()
                    invariant
                        *self == JsonValue::Object(*fields),
                        0 <= i <= fields.len(),
                        out.len() == i,
                        forall|j: int|
                            0 <= j < i ==> out[j].0@ == fields[j].0@ && out[j].1@ == fields[j].1@,
                    decreases fields.len() - i,
                {
                    proof {
                        assert(decreases_to!(*self => self->Object_0));
                        assert(self->Object_0 == *fields);
                        assert(decreases_to!(*fields => fields@));
                        assert(decreases_to!(fields@ => fields@[i as int]));
                        assert(decreases_to!(fields@[i as int] => fields@[i as int].1));
                    }
                    let pair = &fields[i];
                    out.push((pair.0.clone(), pair.1.clone()));
                    i = i + 1;
                }
                proof {
                    assert(json_view_fields(out@) =~= json_view_fields(fields@)) by {
                        assert(forall|j: int|
                            0 <= j < fields@.len() ==> json_view_fields(out@)[j] == json_view_fields(
                                fields@,
                            )[j]);
                    }
                }
                JsonValue::Object(out)
            },
        }
    }
}

/// Metadata of the chain an event belongs to.
#[derive(Debug, PartialEq, Eq)]
pub struct ChainInfo {
    pub id: String,
    pub name: String,
    pub version: String,
    pub token_symbol: String,
    pub decimals: u8,
    pub ssv58_prefix: u16,
    /// Milliseconds since the Unix epoch.
    pub last_updated: i64,
}

/// Mathematical view of a `ChainInfo`.
pub struct ChainInfoV {
    pub id: Seq<char>,
    pub name: Seq<char>,
    pub version: Seq<char>,
    pub token_symbol: Seq<char>,
    pub decimals: u8,
    pub ssv58_prefix: u16,
    pub last_updated: i64,
}

impl View for ChainInfo {
    type V = ChainInfoV;

    open spec fn view(&self) -> ChainInfoV {
        ChainInfoV {
            id: self.id@,
            name: self.name@,
            version: self.version@,
            token_symbol: self.token_symbol@,
            decimals: self.decimals,
            ssv58_prefix: self.ssv58_prefix,
            last_updated: self.last_updated,
        }
    }
}

impl Clone for ChainInfo {
    /// Cloning preserves the view of the record.
    fn clone(&self) -> (r: Self)
        ensures
            r@ == self@,
    {
        ChainInfo {
            id: self.id.clone(),
            name: self.name.clone(),
            version: self.version.clone(),
            token_symbol: self.token_symbol.clone(),
            decimals: self.decimals,
            ssv58_prefix: self.ssv58_prefix,
            last_updated: self.last_updated,
        }
    }
}

/// One chain event. Immutable once inserted; `id` is the unique key.
#[derive(Debug, PartialEq, Eq)]
pub struct Event {
    pub id: String,
    pub block_number: u64,
    pub extrinsic_id: Option<String>,
    /// Milliseconds since the Unix epoch.
    pub timestamp: i64,
    pub pallet_name: String,
    pub event_name: String,
    pub data: JsonValue,
    /// Foreign key to a `ChainInfo`.
    pub chain_id: String,
}

/// Mathematical view of an `Event`.
pub struct EventV {
    pub id: Seq<char>,
    pub block_number: u64,
    pub extrinsic_id: Option<Seq<char>>,
    pub timestamp: i64,
    pub pallet_name: Seq<char>,
    pub event_name: Seq<char>,
    pub data: JsonSpec,
    pub chain_id: Seq<char>,
}

impl View for Event {
    type V = EventV;

    open spec fn view(&self) -> EventV {
        EventV {
            id: self.id@,
            block_number: self.block_number,
            extrinsic_id: match self.extrinsic_id {
                Option::Some(s) => Option::Some(s@),
                Option::None => Option::None,
            },
            timestamp: self.timestamp,
            pallet_name: self.pallet_name@,
            event_name: self.event_name@,
            data: self.data@,
            chain_id: self.chain_id@,
        }
    }
}

impl Clone for Event {
    /// Cloning preserves the view of the record.
    fn clone(&self) -> (r: Self)
        ensures
            r@ == self@,
    {
        Event {
            id: self.id.clone(),
            block_number: self.block_number,
            extrinsic_id: match &self.extrinsic_id {
                Option::Some(s) => Option::Some(s.clone()),
                Option::None => Option::None,
            },
            timestamp: self.timestamp,
            pallet_name: self.pallet_name.clone(),
            event_name: self.event_name.clone(),
            data: self.data.clone(),
            chain_id: self.chain_id.clone(),
        }
    }
}

/// Filter over events: every present predicate must hold (conjunction);
/// an absent field constrains nothing.
#[derive(Debug)]
pub struct EventFilterInput {
    pub pallet_name_eq: Option<String>,
    pub event_name_eq: Option<String>,
    pub block_number_gte: Option<u64>,
    pub block_number_lte: Option<u64>,
}

/// Mathematical view of an `EventFilterInput`.
pub struct EventFilterV {
    pub pallet_name_eq: Option<Seq<char>>,
    pub event_name_eq: Option<Seq<char>>,
    pub block_number_gte: Option<u64>,
    pub block_number_lte: Option<u64>,
}

impl View for EventFilterInput {
    type V = EventFilterV;

    open spec fn view(&self) -> EventFilterV {
        EventFilterV {
            pallet_name_eq: match self.pallet_name_eq {
                Option::Some(s) => Option::Some(s@),
                Option::None => Option::None,
            },
            event_name_eq: match self.event_name_eq {
                Option::Some(s) => Option::Some(s@),
                Option::None => Option::None,
            },
            block_number_gte: self.block_number_gte,
            block_number_lte: self.block_number_lte,
        }
    }
}

/// Whether event `e` satisfies every predicate present in `f`.
pub open spec fn filter_matches(f: EventFilterV, e: EventV) -> bool {
    &&& match f.pallet_name_eq {
        Option::Some(p) => e.pallet_name == p,
        Option::None => true,
    }
    &&& match f.event_name_eq {
        Option::Some(n) => e.event_name == n,
        Option::None => true,
    }
    &&& match f.block_number_gte {
        Option::Some(b) => e.block_number >= b,
        Option::None => true,
    }
    &&& match f.block_number_lte {
        Option::Some(b) => e.block_number <= b,
        Option::None => true,
    }
}

/// An absent filter matches every event.
pub open spec fn opt_filter_matches(f: Option<EventFilterV>, e: EventV) -> bool {
    match f {
        Option::Some(f) => filter_matches(f, e),
        Option::None => true,
    }
}

/// Executable filter check, exact against `filter_matches`.
pub fn event_matches(f: &EventFilterInput, e: &Event) -> (r: bool)
    ensures
        r == filter_matches(f@, e@),
{
    let mut ok = true;
    match &f.pallet_name_eq {
        Option::Some(p) => {
            ok = ok && *p == e.pallet_name;
        },
        Option::None => {},
    }
    match &f.event_name_eq {
        Option::Some(n) => {
            ok = ok && *n == e.event_name;
        },
        Option::None => {},
    }
    match f.block_number_gte {
        Option::Some(b) => {
            ok = ok && e.block_number >= b;
        },
        Option::None => {},
    }
    match f.block_number_lte {
        Option::Some(b) => {
            ok = ok && e.block_number <= b;
        },
        Option::None => {},
    }
    ok
}

/// A concrete transfer payload, as one well-known event shape.
#[derive(Debug, PartialEq, Eq)]
pub struct TransferEventData {
    pub from: String,
    pub to: String,
    pub amount: u128,
}

/// A raw event as an indexer upstream would hand it over.
#[derive(Debug, PartialEq, Eq)]
pub struct RawEventData {
    pub pallet: String,
    pub variant: String,
    pub fields: JsonValue,
}

} // verus!
