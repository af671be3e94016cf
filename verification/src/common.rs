//! Documents as single hits, with the metadata a bulk endpoint can take.

use crate::text::{byte_len, str_byte_len};
use crate::transforms::TransformErrorKind;
use vstd::prelude::*;

verus! {

/// One document with what is known about where it goes.
#[derive(Debug, Clone, Default)]
pub struct Hit {
    /// The document's id, where it has one.
    pub id: Option<String>,
    /// The routing value, where there is one.
    pub routing: Option<String>,
    /// The index the document goes to, where it differs from the sink's.
    pub index: Option<String>,
    /// The sort position of the document.
    pub sort: i64,
    /// The document itself, as JSON text.
    pub source_buf: String,
}

/// A batch of hits, in source order.
#[derive(Debug, Clone, Default)]
pub struct HitBatch {
    pub hits: Vec<Hit>,
}

/// A hit that holds a document and nothing else.
pub open spec fn bare_hit(source: Seq<char>, hit: Hit) -> bool {
    &&& hit.id is None
    &&& hit.routing is None
    &&& hit.index is None
    &&& hit.sort == 0
    &&& hit.source_buf@ == source
}

/// The bytes of the documents of a sequence of hits.
pub open spec fn hit_bytes(hits: Seq<Hit>) -> nat
    decreases hits.len(),
{
    if hits.len() == 0 {
        0
    } else {
        hit_bytes(hits.drop_last()) + byte_len(hits.last().source_buf@)
    }
}

impl Hit {
    /// Wraps a raw document; nothing is known about it yet.
    pub fn new(hit_raw: String) -> (r: Result<Hit, TransformErrorKind>)
        ensures
            r is Ok,
            bare_hit(hit_raw@, r.unwrap()),
    {
        Ok(Hit { id: None, routing: None, index: None, sort: 0, source_buf: hit_raw })
    }
}

impl HitBatch {
    /// Wraps raw documents, keeping their order.
    pub fn new(hits_raw: Vec<String>) -> (r: Result<HitBatch, TransformErrorKind>)
        ensures
            r is Ok,
            r.unwrap().hits.len() == hits_raw.len(),
            forall|i: int|
                0 <= i < hits_raw.len() ==> bare_hit(hits_raw[i]@, #[trigger] r.unwrap().hits[i]),
    {
        let mut hits: Vec<Hit> = Vec::new();
        for hit_raw in it: hits_raw
            invariant
                it.seq() == hits_raw@,
                hits.len() == it.index(),
                forall|i: int| 0 <= i < hits.len() ==> bare_hit(hits_raw[i]@, #[trigger] hits[i]),
        {
            let hit = Hit::new(hit_raw)?;
            hits.push(hit);
        }
        Ok(HitBatch { hits })
    }

    /// The bytes of all documents in the batch; at most `usize::MAX`.
    pub fn total_bytes(&self) -> (n: usize)
        ensures
            n as nat == if hit_bytes(self.hits@) <= usize::MAX {
                hit_bytes(self.hits@)
            } else {
                usize::MAX as nat
            },
    {
        let mut total: usize = 0;
        let mut i: usize = 0;
        proof {
            assert(self.hits@.take(0) =~= Seq::empty());
        }
        while i < self.hits.len()
            invariant
                i <= self.hits.len(),
                total as nat == if hit_bytes(self.hits@.take(i as int)) <= usize::MAX {
                    hit_bytes(self.hits@.take(i as int))
                } else {
                    usize::MAX as nat
                },
            decreases self.hits.len() - i,
        {
            proof {
                assert(self.hits@.take(i + 1).drop_last() == self.hits@.take(i as int));
            }
            total = total.saturating_add(str_byte_len(self.hits[i].source_buf.as_str()));
            i += 1;
        }
        assert(self.hits@.take(i as int) == self.hits@);
        total
    }
}

} // verus!
