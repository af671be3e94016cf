//! Hits as bulk-indexing items: an action line that carries the hit's
//! metadata, a newline, and the document as it is.

use crate::common::Hit;
use crate::json::{
    json_string_text, object_insert_string, object_json, object_members, object_new,
    object_to_json, Member,
};
use crate::text::push_char;
use crate::transforms::rally_s3::optional_text;
use crate::transforms::{EgressTransform, TransformErrorKind};
use vstd::prelude::*;
use vstd::string::StringExecFns;

verus! {

/// `members` with a string under `name`, where there is one to put.
pub open spec fn with_optional(
    members: Map<Seq<char>, Member>,
    name: Seq<char>,
    value: Option<Seq<char>>,
) -> Map<Seq<char>, Member> {
    match value {
        Some(value) => members.insert(name, (json_string_text(value), Some(value))),
        None => members,
    }
}

/// The metadata of an action: `_id`, `_index` and `routing`, each only where
/// the hit has it.
pub open spec fn action_metadata(
    id: Option<Seq<char>>,
    index: Option<Seq<char>>,
    routing: Option<Seq<char>>,
) -> Map<Seq<char>, Member> {
    with_optional(
        with_optional(with_optional(Map::empty(), "_id"@, id), "_index"@, index),
        "routing"@,
        routing,
    )
}

/// The bulk item of a hit: `{"index":<metadata>}`, a newline, and the
/// document untouched.
pub open spec fn hit_item(hit: Hit) -> Result<Seq<char>, TransformErrorKind> {
    match object_json(
        action_metadata(
            optional_text(hit.id),
            optional_text(hit.index),
            optional_text(hit.routing),
        ),
    ) {
        Some(metadata) => Ok("{\"index\":"@ + metadata + seq!['}', '\n'] + hit.source_buf@),
        None => Err(TransformErrorKind::Unserializable),
    }
}

/// Writes hits for a bulk endpoint.
#[derive(Debug, Clone, Copy, PartialEq, Eq, Structural)]
pub struct ElasticsearchBulk;

fn insert_optional(
    metadata: &mut serde_json::Map<String, serde_json::Value>,
    name: &str,
    value: &Option<String>,
)
    ensures
        object_members(*final(metadata)) == with_optional(
            object_members(*old(metadata)),
            name@,
            optional_text(*value),
        ),
{
    match value {
        Some(value) => {
            object_insert_string(metadata, name, value.as_str());
        },
        None => {},
    }
}

impl EgressTransform for ElasticsearchBulk {
    open spec fn egress_of(hit: Hit) -> Result<Seq<char>, TransformErrorKind> {
        hit_item(hit)
    }

    fn transform_hit(hit: &Hit) -> (r: Result<String, TransformErrorKind>) {
        let mut the_action_metadata = object_new();
        insert_optional(&mut the_action_metadata, "_id", &hit.id);
        insert_optional(&mut the_action_metadata, "_index", &hit.index);
        insert_optional(&mut the_action_metadata, "routing", &hit.routing);
        match object_to_json(&the_action_metadata) {
            Err(_) => Err(TransformErrorKind::Unserializable),
            Ok(metadata) => {
                let mut item = String::from_str("{\"index\":");
                item.append(metadata.as_str());
                push_char(&mut item, '}');
                push_char(&mut item, '\n');
                item.append(hit.source_buf.as_str());
                assert(item@ =~= "{\"index\":"@ + metadata@ + seq!['}', '\n'] + hit.source_buf@);
                Ok(item)
            },
        }
    }
}

/// What went wrong with one hit of a bulk request.
#[derive(Debug, Clone, Copy, PartialEq, Eq, Structural)]
pub enum BulkErrorKind {
    /// Neither the hit nor the sink names an index.
    MissingIndex,
    /// The action of the hit could not be written as JSON.
    Unserializable,
}

/// A bulk request could not be written because of one of its hits.
#[derive(Debug, Clone, Copy, PartialEq, Eq, Structural)]
pub struct BulkError {
    /// What went wrong.
    pub kind: BulkErrorKind,
    /// Position of the failing hit, counted from zero.
    pub hit: usize,
}

/// The index that a hit goes to: its own where it has one, else the sink's.
pub open spec fn target_index(hit: Hit, default_index: Option<Seq<char>>) -> Option<Seq<char>> {
    match hit.index {
        Some(index) => Some(index@),
        None => default_index,
    }
}

/// The two lines of one hit in a bulk request with explicit indices: the
/// action with the hit's metadata and its index, and the document, each
/// ended by a newline.
pub open spec fn bulk_entry(hit: Hit, default_index: Option<Seq<char>>) -> Result<
    Seq<char>,
    BulkErrorKind,
> {
    match target_index(hit, default_index) {
        None => Err(BulkErrorKind::MissingIndex),
        Some(index) => match object_json(
            action_metadata(optional_text(hit.id), Some(index), optional_text(hit.routing)),
        ) {
            Some(metadata) => Ok(
                "{\"index\":"@ + metadata + seq!['}', '\n'] + hit.source_buf@ + seq!['\n'],
            ),
            None => Err(BulkErrorKind::Unserializable),
        },
    }
}

/// The body of a bulk request for a sequence of hits, in order; the first
/// hit that fails decides the error.
pub open spec fn bulk_body(hits: Seq<Hit>, default_index: Option<Seq<char>>) -> Result<
    Seq<char>,
    BulkError,
>
    decreases hits.len(),
{
    if hits.len() == 0 {
        Ok(Seq::empty())
    } else {
        match bulk_body(hits.drop_last(), default_index) {
            Err(e) => Err(e),
            Ok(body) => match bulk_entry(hits.last(), default_index) {
                Ok(entry) => Ok(body + entry),
                Err(kind) => Err(BulkError { kind, hit: (hits.len() - 1) as usize }),
            },
        }
    }
}

/// A failure among the first hits is the failure of the whole request.
pub proof fn lemma_bulk_body_first_error(hits: Seq<Hit>, default_index: Option<Seq<char>>, k: int)
    requires
        0 <= k <= hits.len(),
        bulk_body(hits.take(k), default_index) is Err,
    ensures
        bulk_body(hits, default_index) == bulk_body(hits.take(k), default_index),
    decreases hits.len() - k,
{
    if k < hits.len() {
        assert(hits.take(k + 1).drop_last() == hits.take(k));
        lemma_bulk_body_first_error(hits, default_index, k + 1);
    } else {
        assert(hits.take(k) == hits);
    }
}

fn push_bulk_entry(body: &mut String, hit: &Hit, default_index: &Option<String>) -> (r: Result<
    (),
    BulkErrorKind,
>)
    ensures
        match r {
            Ok(_) => bulk_entry(*hit, optional_text(*default_index)) is Ok && final(body)@ == old(
                body,
            )@ + bulk_entry(*hit, optional_text(*default_index)).unwrap(),
            Err(kind) => bulk_entry(*hit, optional_text(*default_index)) == Err::<
                Seq<char>,
                BulkErrorKind,
            >(kind) && final(body)@ == old(body)@,
        },
{
    let mut action = object_new();
    insert_optional(&mut action, "_id", &hit.id);
    match &hit.index {
        Some(index) => {
            object_insert_string(&mut action, "_index", index.as_str());
        },
        None => match default_index {
            Some(index) => {
                object_insert_string(&mut action, "_index", index.as_str());
            },
            None => {
                return Err(BulkErrorKind::MissingIndex);
            },
        },
    }
    insert_optional(&mut action, "routing", &hit.routing);
    match object_to_json(&action) {
        Err(_) => Err(BulkErrorKind::Unserializable),
        Ok(metadata) => {
            body.append("{\"index\":");
            body.append(metadata.as_str());
            push_char(body, '}');
            push_char(body, '\n');
            body.append(hit.source_buf.as_str());
            push_char(body, '\n');
            assert(body@ =~= old(body)@ + ("{\"index\":"@ + metadata@ + seq!['}', '\n']
                + hit.source_buf@ + seq!['\n']));
            Ok(())
        },
    }
}

/// Writes the body of a bulk request in which every action names its
/// index: the hit's own, or else the given one. A hit without either fails
/// the request.
pub fn transform_into_bulk(hits: &[Hit], default_index: &Option<String>) -> (r: Result<
    String,
    BulkError,
>)
    ensures
        match r {
            Ok(body) => bulk_body(hits@, optional_text(*default_index)) == Ok::<
                Seq<char>,
                BulkError,
            >(body@),
            Err(e) => bulk_body(hits@, optional_text(*default_index)) == Err::<
                Seq<char>,
                BulkError,
            >(e),
        },
{
    let mut bulk_body_text = String::new();
    let mut i: usize = 0;
    proof {
        assert(hits@.take(0) =~= Seq::empty());
    }
    while i < hits.len()
        invariant
            i <= hits.len(),
            bulk_body(hits@.take(i as int), optional_text(*default_index)) == Ok::<
                Seq<char>,
                BulkError,
            >(bulk_body_text@),
        decreases hits.len() - i,
    {
        proof {
            assert(hits@.take(i + 1).drop_last() == hits@.take(i as int));
            assert(hits@.take(i + 1).last() == hits@[i as int]);
        }
        match push_bulk_entry(&mut bulk_body_text, &hits[i], default_index) {
            Ok(_) => {},
            Err(kind) => {
                proof {
                    lemma_bulk_body_first_error(hits@, optional_text(*default_index), i + 1);
                }
                return Err(BulkError { kind, hit: i });
            },
        }
        i += 1;
    }
    assert(hits@.take(i as int) == hits@);
    Ok(bulk_body_text)
}

} // verus!
