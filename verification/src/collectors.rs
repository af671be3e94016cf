//! Collectors: items in, one payload in the sink's wire format out.

use crate::app_config::SinkConfig;
use crate::text::{push_char, texts};
use crate::transforms::{sink_kind, SinkKind};
use vstd::prelude::*;
use vstd::string::StringExecFns;

verus! {

/// Newline-delimited framing: every item followed by a newline, the last one
/// too. No items give the empty text.
pub open spec fn ndjson(items: Seq<Seq<char>>) -> Seq<char>
    decreases items.len(),
{
    if items.len() == 0 {
        Seq::empty()
    } else {
        ndjson(items.drop_last()) + items.last() + seq!['\n']
    }
}

/// The items in order with a comma between neighbours.
pub open spec fn comma_separated(items: Seq<Seq<char>>) -> Seq<char>
    decreases items.len(),
{
    if items.len() == 0 {
        Seq::empty()
    } else if items.len() == 1 {
        items[0]
    } else {
        comma_separated(items.drop_last()) + seq![','] + items.last()
    }
}

/// Array framing: `[`, the items with commas between them, `]`. The items
/// are not looked into. No items give `[]`.
pub open spec fn json_array(items: Seq<Seq<char>>) -> Seq<char> {
    seq!['['] + comma_separated(items) + seq![']']
}

/// A wire framing for a sequence of items.
pub trait PayloadCollector {
    /// The payload that the items make.
    spec fn payload_of(&self, items: Seq<Seq<char>>) -> Seq<char>;

    /// Frames the items as one payload.
    fn collect(&self, items: &[String]) -> (payload: String)
        ensures
            payload@ == self.payload_of(texts(items@)),
    ;
}

/// Frames items as newline-delimited JSON.
#[derive(Debug, Clone, Copy, PartialEq, Eq, Structural)]
pub struct NdjsonCollector;

impl PayloadCollector for NdjsonCollector {
    open spec fn payload_of(&self, items: Seq<Seq<char>>) -> Seq<char> {
        ndjson(items)
    }

    fn collect(&self, items: &[String]) -> (payload: String) {
        let mut payload = String::new();
        let mut i: usize = 0;
        proof {
            assert(texts(items@).take(0) =~= Seq::empty());
        }
        while i < items.len()
            invariant
                i <= items.len(),
                payload@ == ndjson(texts(items@).take(i as int)),
            decreases items.len() - i,
        {
            proof {
                assert(texts(items@).take(i + 1).drop_last() == texts(items@).take(i as int));
            }
            payload.append(items[i].as_str());
            push_char(&mut payload, '\n');
            i += 1;
        }
        assert(texts(items@).take(i as int) == texts(items@));
        payload
    }
}

/// Frames items as one JSON array.
#[derive(Debug, Clone, Copy, PartialEq, Eq, Structural)]
pub struct JsonArrayCollector;

impl PayloadCollector for JsonArrayCollector {
    open spec fn payload_of(&self, items: Seq<Seq<char>>) -> Seq<char> {
        json_array(items)
    }

    fn collect(&self, items: &[String]) -> (payload: String) {
        let mut payload = String::new();
        push_char(&mut payload, '[');
        let inner = comma_join(items);
        payload.append(inner.as_str());
        push_char(&mut payload, ']');
        assert(payload@ =~= json_array(texts(items@)));
        payload
    }
}

/// Writes the items in order with a comma between neighbours.
pub fn comma_join(items: &[String]) -> (joined: String)
    ensures
        joined@ == comma_separated(texts(items@)),
{
    let mut joined = String::new();
    let mut i: usize = 0;
    proof {
        assert(texts(items@).take(0) =~= Seq::empty());
    }
    while i < items.len()
        invariant
            i <= items.len(),
            joined@ == comma_separated(texts(items@).take(i as int)),
        decreases items.len() - i,
    {
        proof {
            assert(texts(items@).take(i + 1).drop_last() == texts(items@).take(i as int));
        }
        if i > 0 {
            push_char(&mut joined, ',');
        }
        joined.append(items[i].as_str());
        i += 1;
    }
    assert(texts(items@).take(i as int) == texts(items@));
    joined
}

/// The closed set of collectors.
#[derive(Debug, Clone, Copy, PartialEq, Eq, Structural)]
pub enum CollectorBackend {
    Ndjson(NdjsonCollector),
    JsonArray(JsonArrayCollector),
}

/// The collector for each kind of sink.
pub open spec fn collector_for(sink: SinkKind) -> CollectorBackend {
    match sink {
        SinkKind::Elasticsearch => CollectorBackend::Ndjson(NdjsonCollector),
        SinkKind::File => CollectorBackend::Ndjson(NdjsonCollector),
        SinkKind::InMemory => CollectorBackend::JsonArray(JsonArrayCollector),
    }
}

impl CollectorBackend {
    /// Picks the collector for the configured sink.
    pub fn from_sink_config(sink: &SinkConfig) -> (c: Self)
        ensures
            c == collector_for(sink_kind(*sink)),
    {
        match sink {
            SinkConfig::Elasticsearch(_) => CollectorBackend::Ndjson(NdjsonCollector),
            SinkConfig::File(_) => CollectorBackend::Ndjson(NdjsonCollector),
            SinkConfig::InMemory(_) => CollectorBackend::JsonArray(JsonArrayCollector),
        }
    }
}

impl PayloadCollector for CollectorBackend {
    open spec fn payload_of(&self, items: Seq<Seq<char>>) -> Seq<char> {
        match self {
            CollectorBackend::Ndjson(c) => c.payload_of(items),
            CollectorBackend::JsonArray(c) => c.payload_of(items),
        }
    }

    fn collect(&self, items: &[String]) -> (payload: String) {
        match self {
            CollectorBackend::Ndjson(c) => c.collect(items),
            CollectorBackend::JsonArray(c) => c.collect(items),
        }
    }
}

/// Newline-delimited framing of a sequence in two parts is the framing of
/// the first part followed by that of the second.
pub proof fn lemma_ndjson_concat(first: Seq<Seq<char>>, second: Seq<Seq<char>>)
    ensures
        ndjson(first + second) == ndjson(first) + ndjson(second),
    decreases second.len(),
{
    if second.len() == 0 {
        assert(first + second =~= first);
        assert(ndjson(first) + ndjson(second) =~= ndjson(first));
    } else {
        lemma_ndjson_concat(first, second.drop_last());
        assert((first + second).drop_last() =~= first + second.drop_last());
        assert((first + second).last() == second.last());
        assert(ndjson(first + second) =~= ndjson(first) + ndjson(second));
    }
}

/// A newline-delimited payload is empty where there are no items, and ends
/// with a newline where there are any.
pub proof fn lemma_ndjson_shape(items: Seq<Seq<char>>)
    ensures
        items.len() == 0 ==> ndjson(items).len() == 0,
        items.len() > 0 ==> ndjson(items).len() > 0 && ndjson(items).last() == '\n',
{
}

} // verus!
