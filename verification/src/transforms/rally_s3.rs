//! Rally JSON documents as hits: the `ObjectID` becomes the hit's id, the
//! bookkeeping fields at the top level are dropped.

use crate::common::Hit;
use crate::transforms::rally_s3_to_es::{clean_document, clean_rally_document, CleanDocument};
use crate::transforms::{IngestTransform, TransformErrorKind};
use vstd::prelude::*;

verus! {

/// Reads Rally JSON documents.
#[derive(Debug, Clone, Copy, PartialEq, Eq, Structural)]
pub struct RallyS3Json;

/// The text of a string that may be absent.
pub open spec fn optional_text(value: Option<String>) -> Option<Seq<char>> {
    match value {
        Some(value) => Some(value@),
        None => None,
    }
}

impl IngestTransform for RallyS3Json {
    open spec fn ingests(raw: Seq<char>, outcome: Result<Hit, TransformErrorKind>) -> bool {
        match outcome {
            Ok(hit) => {
                &&& clean_document(raw) == Ok::<CleanDocument, TransformErrorKind>(
                    (optional_text(hit.id), hit.source_buf@),
                )
                &&& hit.routing is None
                &&& hit.index is None
                &&& hit.sort == 0
            },
            Err(kind) => clean_document(raw) == Err::<CleanDocument, TransformErrorKind>(kind),
        }
    }

    fn transform_hit(raw: String) -> (r: Result<Hit, TransformErrorKind>) {
        let (id, source_buf) = clean_rally_document(raw.as_str())?;
        Ok(Hit { id, routing: None, index: None, sort: 0, source_buf })
    }
}

} // verus!
