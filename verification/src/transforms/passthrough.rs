//! The identity transform: the whole page is the one item, borrowed.

use crate::common::{bare_hit, Hit};
use crate::transforms::{
    EgressTransform, IngestTransform, Items, Transform, TransformError, TransformErrorKind,
};
use std::borrow::Cow;
use vstd::prelude::*;

verus! {

/// Hands a page on unchanged. Used where source and sink share a format.
#[derive(Debug, Clone, Copy, PartialEq, Eq, Structural)]
pub struct Passthrough;

impl Transform for Passthrough {
    open spec fn items_of(&self, page: Seq<char>) -> Items {
        Ok(seq![page])
    }

    fn transform<'a>(&self, raw_source_page: &'a str) -> (r: Result<
        Vec<Cow<'a, str>>,
        TransformError,
    >)
        ensures
            r is Ok,
            r.unwrap().len() == 1,
            r.unwrap()[0] == Cow::Borrowed(raw_source_page),
    {
        let mut items: Vec<Cow<'a, str>> = Vec::new();
        items.push(Cow::Borrowed(raw_source_page));
        assert(crate::transforms::item_texts(items@) =~= seq![raw_source_page@]);
        Ok(items)
    }
}

/// The same for single documents: a document becomes a hit without
/// metadata, and a hit becomes its document again.
#[derive(Debug, Clone, Copy, PartialEq, Eq, Structural)]
pub struct RawJsonPassthrough;

impl IngestTransform for RawJsonPassthrough {
    open spec fn ingests(raw: Seq<char>, outcome: Result<Hit, TransformErrorKind>) -> bool {
        outcome is Ok && bare_hit(raw, outcome.unwrap())
    }

    fn transform_hit(raw: String) -> (r: Result<Hit, TransformErrorKind>) {
        Ok(Hit { id: None, routing: None, index: None, sort: 0, source_buf: raw })
    }
}

impl EgressTransform for RawJsonPassthrough {
    open spec fn egress_of(hit: Hit) -> Result<Seq<char>, TransformErrorKind> {
        Ok(hit.source_buf@)
    }

    fn transform_hit(hit: &Hit) -> (r: Result<String, TransformErrorKind>) {
        Ok(hit.source_buf.clone())
    }
}

} // verus!
