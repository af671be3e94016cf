//! Composers: a buffer of raw pages and a transform in, one payload out.
//!
//! A composer walks the pages in buffer order, transforms each and frames
//! the items in the sink's wire format.

use crate::app_config::SinkConfig;
use crate::collectors::{comma_separated, json_array, ndjson};
use crate::text::{push_char, texts};
use crate::transforms::{
    item_texts, sink_kind, DocumentTransformer, Items, SinkKind, Transform, TransformError,
};
use std::borrow::Cow;
use vstd::prelude::*;
use vstd::string::StringExecFns;

verus! {

/// The items of all pages, page after page; the first page that fails
/// decides the error.
pub open spec fn all_items(transformer: DocumentTransformer, pages: Seq<Seq<char>>) -> Items
    decreases pages.len(),
{
    if pages.len() == 0 {
        Ok(Seq::empty())
    } else {
        match all_items(transformer, pages.drop_last()) {
            Err(e) => Err(e),
            Ok(items) => match transformer.items_of(pages.last()) {
                Ok(more) => Ok(items + more),
                Err(e) => Err(e),
            },
        }
    }
}

/// A failure among the first pages is the failure of the whole buffer.
pub proof fn lemma_all_items_first_error(
    transformer: DocumentTransformer,
    pages: Seq<Seq<char>>,
    k: int,
)
    requires
        0 <= k <= pages.len(),
        all_items(transformer, pages.take(k)) is Err,
    ensures
        all_items(transformer, pages) == all_items(transformer, pages.take(k)),
    decreases pages.len() - k,
{
    if k < pages.len() {
        assert(pages.take(k + 1).drop_last() == pages.take(k));
        lemma_all_items_first_error(transformer, pages, k + 1);
    } else {
        assert(pages.take(k) == pages);
    }
}

/// A wire framing applied to the transformed pages of a buffer.
pub trait Composer {
    /// The payload that the items make.
    spec fn framed(&self, items: Seq<Seq<char>>) -> Seq<char>;

    /// Transforms the pages in order and frames their items as one payload.
    fn compose(&self, pages: &[String], transformer: &DocumentTransformer) -> (r: Result<
        String,
        TransformError,
    >)
        ensures
            match r {
                Ok(payload) => match all_items(*transformer, texts(pages@)) {
                    Ok(items) => payload@ == self.framed(items),
                    Err(_) => false,
                },
                Err(e) => all_items(*transformer, texts(pages@)) == Err::<
                    Seq<Seq<char>>,
                    TransformError,
                >(e),
            },
    ;
}

/// The payload that a composer makes of a buffer of pages, or the failure of
/// the transform.
pub open spec fn composed<C: Composer + ?Sized>(
    composer: &C,
    transformer: DocumentTransformer,
    pages: Seq<Seq<char>>,
) -> Result<Seq<char>, TransformError> {
    match all_items(transformer, pages) {
        Ok(items) => Ok(composer.framed(items)),
        Err(e) => Err(e),
    }
}

/// Composes newline-delimited JSON: every item followed by a newline.
#[derive(Debug, Clone, Copy, PartialEq, Eq, Structural)]
pub struct NdjsonComposer;

impl Composer for NdjsonComposer {
    open spec fn framed(&self, items: Seq<Seq<char>>) -> Seq<char> {
        ndjson(items)
    }

    fn compose(&self, pages: &[String], transformer: &DocumentTransformer) -> (r: Result<
        String,
        TransformError,
    >) {
        let mut payload = String::new();
        let ghost mut done: Seq<Seq<char>> = Seq::empty();
        let mut i: usize = 0;
        proof {
            assert(texts(pages@).take(0) =~= Seq::empty());
        }
        while i < pages.len()
            invariant
                i <= pages.len(),
                all_items(*transformer, texts(pages@).take(i as int)) == Ok::<
                    Seq<Seq<char>>,
                    TransformError,
                >(done),
                payload@ == ndjson(done),
            decreases pages.len() - i,
        {
            proof {
                assert(texts(pages@).take(i + 1).drop_last() == texts(pages@).take(i as int));
            }
            match transformer.transform(pages[i].as_str()) {
                Err(e) => {
                    proof {
                        lemma_all_items_first_error(*transformer, texts(pages@), i + 1);
                    }
                    return Err(e);
                },
                Ok(items) => {
                    let ghost more = item_texts(items@);
                    let mut j: usize = 0;
                    proof {
                        assert(done + more.take(0) =~= done);
                    }
                    while j < items.len()
                        invariant
                            j <= items.len(),
                            more == item_texts(items@),
                            payload@ == ndjson(done + more.take(j as int)),
                        decreases items.len() - j,
                    {
                        proof {
                            assert((done + more.take(j + 1)).drop_last() == done + more.take(
                                j as int,
                            ));
                        }
                        payload.append(cow_str(&items[j]));
                        push_char(&mut payload, '\n');
                        j += 1;
                    }
                    proof {
                        assert(more.take(j as int) == more);
                        done = done + more;
                    }
                },
            }
            i += 1;
        }
        assert(texts(pages@).take(i as int) == texts(pages@));
        Ok(payload)
    }
}

/// Composes one JSON array of all items.
#[derive(Debug, Clone, Copy, PartialEq, Eq, Structural)]
pub struct JsonArrayComposer;

impl Composer for JsonArrayComposer {
    open spec fn framed(&self, items: Seq<Seq<char>>) -> Seq<char> {
        json_array(items)
    }

    fn compose(&self, pages: &[String], transformer: &DocumentTransformer) -> (r: Result<
        String,
        TransformError,
    >) {
        let mut payload = String::new();
        push_char(&mut payload, '[');
        let mut written: usize = 0;
        let ghost mut done: Seq<Seq<char>> = Seq::empty();
        let mut i: usize = 0;
        proof {
            assert(texts(pages@).take(0) =~= Seq::empty());
        }
        while i < pages.len()
            invariant
                i <= pages.len(),
                all_items(*transformer, texts(pages@).take(i as int)) == Ok::<
                    Seq<Seq<char>>,
                    TransformError,
                >(done),
                payload@ == seq!['['] + comma_separated(done),
                written == 0 <==> done.len() == 0,
            decreases pages.len() - i,
        {
            proof {
                assert(texts(pages@).take(i + 1).drop_last() == texts(pages@).take(i as int));
            }
            match transformer.transform(pages[i].as_str()) {
                Err(e) => {
                    proof {
                        lemma_all_items_first_error(*transformer, texts(pages@), i + 1);
                    }
                    return Err(e);
                },
                Ok(items) => {
                    let ghost more = item_texts(items@);
                    let mut j: usize = 0;
                    proof {
                        assert(done + more.take(0) =~= done);
                    }
                    while j < items.len()
                        invariant
                            j <= items.len(),
                            more == item_texts(items@),
                            payload@ == seq!['['] + comma_separated(done + more.take(j as int)),
                            written == 0 <==> (done + more.take(j as int)).len() == 0,
                        decreases items.len() - j,
                    {
                        proof {
                            assert((done + more.take(j + 1)).drop_last() == done + more.take(
                                j as int,
                            ));
                        }
                        if written > 0 {
                            push_char(&mut payload, ',');
                        }
                        payload.append(cow_str(&items[j]));
                        written = 1;
                        j += 1;
                    }
                    proof {
                        assert(more.take(j as int) == more);
                        done = done + more;
                    }
                },
            }
            i += 1;
        }
        assert(texts(pages@).take(i as int) == texts(pages@));
        push_char(&mut payload, ']');
        assert(payload@ =~= json_array(done));
        Ok(payload)
    }
}

/// The text of an item, borrowed or owned.
fn cow_str<'a>(item: &'a Cow<'_, str>) -> (s: &'a str)
    ensures
        s@ == item@,
{
    match item {
        Cow::Borrowed(borrowed) => borrowed,
        Cow::Owned(owned) => owned.as_str(),
    }
}

/// The closed set of composers.
#[derive(Debug, Clone, Copy, PartialEq, Eq, Structural)]
pub enum ComposerBackend {
    Ndjson(NdjsonComposer),
    JsonArray(JsonArrayComposer),
}

/// The composer for each kind of sink.
pub open spec fn composer_for(sink: SinkKind) -> ComposerBackend {
    match sink {
        SinkKind::Elasticsearch => ComposerBackend::Ndjson(NdjsonComposer),
        SinkKind::File => ComposerBackend::Ndjson(NdjsonComposer),
        SinkKind::InMemory => ComposerBackend::JsonArray(JsonArrayComposer),
    }
}

impl ComposerBackend {
    /// Picks the composer for the configured sink.
    pub fn from_sink_config(sink: &SinkConfig) -> (c: Self)
        ensures
            c == composer_for(sink_kind(*sink)),
    {
        match sink {
            SinkConfig::Elasticsearch(_) => ComposerBackend::Ndjson(NdjsonComposer),
            SinkConfig::File(_) => ComposerBackend::Ndjson(NdjsonComposer),
            SinkConfig::InMemory(_) => ComposerBackend::JsonArray(JsonArrayComposer),
        }
    }
}

impl Composer for ComposerBackend {
    open spec fn framed(&self, items: Seq<Seq<char>>) -> Seq<char> {
        match self {
            ComposerBackend::Ndjson(c) => c.framed(items),
            ComposerBackend::JsonArray(c) => c.framed(items),
        }
    }

    fn compose(&self, pages: &[String], transformer: &DocumentTransformer) -> (r: Result<
        String,
        TransformError,
    >) {
        match self {
            ComposerBackend::Ndjson(c) => c.compose(pages, transformer),
            ComposerBackend::JsonArray(c) => c.compose(pages, transformer),
        }
    }
}

/// Whether every page can be transformed.
pub open spec fn each_transforms(transformer: DocumentTransformer, pages: Seq<Seq<char>>) -> bool {
    forall|i: int| 0 <= i < pages.len() ==> (#[trigger] transformer.items_of(pages[i])) is Ok
}

/// The pages of a buffer can be transformed together exactly when each can
/// be transformed alone.
pub proof fn lemma_all_items_ok(transformer: DocumentTransformer, pages: Seq<Seq<char>>)
    ensures
        all_items(transformer, pages) is Ok <==> each_transforms(transformer, pages),
    decreases pages.len(),
{
    if pages.len() > 0 {
        lemma_all_items_ok(transformer, pages.drop_last());
        if each_transforms(transformer, pages) {
            assert forall|i: int| 0 <= i < pages.drop_last().len() implies (
            #[trigger] transformer.items_of(pages.drop_last()[i])) is Ok by {
                assert(pages.drop_last()[i] == pages[i]);
            }
            assert(pages.last() == pages[pages.len() - 1]);
        }
        if all_items(transformer, pages) is Ok {
            assert forall|i: int| 0 <= i < pages.len() implies (#[trigger] transformer.items_of(
                pages[i],
            )) is Ok by {
                if i < pages.len() - 1 {
                    assert(pages.drop_last()[i] == pages[i]);
                }
            }
        }
    }
}

/// The items of two runs of pages, one after the other, are the items of
/// the first run followed by those of the second.
pub proof fn lemma_all_items_concat(
    transformer: DocumentTransformer,
    first: Seq<Seq<char>>,
    second: Seq<Seq<char>>,
)
    requires
        all_items(transformer, first) is Ok,
        all_items(transformer, second) is Ok,
    ensures
        all_items(transformer, first + second) == Ok::<Seq<Seq<char>>, TransformError>(
            all_items(transformer, first).unwrap() + all_items(transformer, second).unwrap(),
        ),
    decreases second.len(),
{
    if second.len() == 0 {
        assert(first + second =~= first);
        assert(all_items(transformer, first).unwrap() + Seq::<Seq<char>>::empty()
            =~= all_items(transformer, first).unwrap());
    } else {
        lemma_all_items_concat(transformer, first, second.drop_last());
        assert((first + second).drop_last() =~= first + second.drop_last());
        assert((first + second).last() == second.last());
        let a = all_items(transformer, first).unwrap();
        let b = all_items(transformer, second.drop_last()).unwrap();
        let c = transformer.items_of(second.last()).unwrap();
        assert((a + b) + c =~= a + (b + c));
    }
}

} // verus!
