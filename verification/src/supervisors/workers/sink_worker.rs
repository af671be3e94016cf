//! The sink worker: pages are buffered until their size comes within a fixed
//! headroom of the request limit, then composed into one payload.
//!
//! The worker here only decides; whoever drives it receives the pages and
//! performs the sends.

use crate::composers::{all_items, Composer, ComposerBackend};
use crate::text::{byte_len, str_byte_len, texts};
use crate::transforms::{DocumentTransformer, TransformError};
use vstd::prelude::*;
use vstd::string::StringExecFns;

verus! {

/// Headroom kept below the request limit: transforms may add to what the
/// pages hold, an action line per document for one.
pub const BUFFER_EPSILON_BYTES: usize = 65536;

/// The bytes that a sequence of pages holds.
pub open spec fn total_bytes(pages: Seq<Seq<char>>) -> nat
    decreases pages.len(),
{
    if pages.len() == 0 {
        0
    } else {
        total_bytes(pages.drop_last()) + byte_len(pages.last())
    }
}

/// Whether a buffer of the given size must be flushed.
pub open spec fn flush_due(bytes: nat, headroom: nat, limit: nat) -> bool {
    bytes + headroom >= limit
}

/// Whether a payload holds nothing worth sending: it is empty, or an empty
/// array.
pub open spec fn nothing_to_send(payload: Seq<char>) -> bool {
    payload.len() == 0 || payload == "[]"@
}

/// What a flush of the given pages hands to the sink: the composed payload,
/// or none where there is nothing to send; or the failure of the transform.
pub open spec fn flushed(
    composer: ComposerBackend,
    transformer: DocumentTransformer,
    pages: Seq<Seq<char>>,
) -> Result<Option<Seq<char>>, TransformError> {
    match all_items(transformer, pages) {
        Ok(items) => if nothing_to_send(composer.framed(items)) {
            Ok(None)
        } else {
            Ok(Some(composer.framed(items)))
        },
        Err(e) => Err(e),
    }
}

/// The text of a payload that may be absent.
pub open spec fn payload_text(payload: Option<String>) -> Option<Seq<char>> {
    match payload {
        Some(payload) => Some(payload@),
        None => None,
    }
}

/// One sink worker's buffer and the strategy it was built with.
#[derive(Debug)]
pub struct SinkWorker {
    buffer: Vec<String>,
    buffer_bytes: usize,
    transformer: DocumentTransformer,
    composer: ComposerBackend,
    max_request_size_bytes: usize,
    headroom: usize,
}

impl SinkWorker {
    /// The pages that wait in the buffer, oldest first.
    pub closed spec fn pages(&self) -> Seq<Seq<char>> {
        texts(self.buffer@)
    }

    /// The transform applied at every flush.
    pub closed spec fn transformer(&self) -> DocumentTransformer {
        self.transformer
    }

    /// The composer applied at every flush.
    pub closed spec fn composer(&self) -> ComposerBackend {
        self.composer
    }

    /// The request limit of the sink.
    pub closed spec fn limit(&self) -> usize {
        self.max_request_size_bytes
    }

    /// The headroom kept below the limit.
    pub closed spec fn headroom(&self) -> usize {
        self.headroom
    }

    /// The byte count kept beside the buffer agrees with the buffer.
    pub closed spec fn wf(&self) -> bool {
        self.buffer_bytes as nat == if total_bytes(self.pages()) <= usize::MAX {
            total_bytes(self.pages())
        } else {
            usize::MAX as nat
        }
    }

    /// Whether `other` was built with the same strategy and limits.
    pub open spec fn same_setup(&self, other: &Self) -> bool {
        &&& self.transformer() == other.transformer()
        &&& self.composer() == other.composer()
        &&& self.limit() == other.limit()
        &&& self.headroom() == other.headroom()
    }

    /// A worker with an empty buffer and the standard headroom.
    pub fn new(
        transformer: DocumentTransformer,
        composer: ComposerBackend,
        max_request_size_bytes: usize,
    ) -> (worker: Self)
        ensures
            worker.wf(),
            worker.pages() == Seq::<Seq<char>>::empty(),
            worker.transformer() == transformer,
            worker.composer() == composer,
            worker.limit() == max_request_size_bytes,
            worker.headroom() == BUFFER_EPSILON_BYTES,
    {
        Self::with_headroom(transformer, composer, max_request_size_bytes, BUFFER_EPSILON_BYTES)
    }

    /// A worker with an empty buffer and a headroom of the caller's choice.
    pub fn with_headroom(
        transformer: DocumentTransformer,
        composer: ComposerBackend,
        max_request_size_bytes: usize,
        headroom: usize,
    ) -> (worker: Self)
        ensures
            worker.wf(),
            worker.pages() == Seq::<Seq<char>>::empty(),
            worker.transformer() == transformer,
            worker.composer() == composer,
            worker.limit() == max_request_size_bytes,
            worker.headroom() == headroom,
    {
        let worker = SinkWorker {
            buffer: Vec::new(),
            buffer_bytes: 0,
            transformer,
            composer,
            max_request_size_bytes,
            headroom,
        };
        assert(worker.pages() =~= Seq::empty());
        worker
    }

    /// The number of pages that wait in the buffer.
    pub fn buffered_pages(&self) -> (n: usize)
        ensures
            n == self.pages().len(),
    {
        self.buffer.len()
    }

    /// Composes the buffer into one payload and empties it. On failure the
    /// buffer is left as it is.
    fn flush(&mut self) -> (r: Result<Option<String>, TransformError>)
        requires
            old(self).wf(),
        ensures
            final(self).wf(),
            final(self).same_setup(old(self)),
            payload_text_of(r) == flushed(
                old(self).composer(),
                old(self).transformer(),
                old(self).pages(),
            ),
            r is Ok ==> final(self).pages() == Seq::<Seq<char>>::empty(),
            r is Err ==> final(self).pages() == old(self).pages(),
    {
        let payload = self.composer.compose(self.buffer.as_slice(), &self.transformer)?;
        self.buffer.clear();
        self.buffer_bytes = 0;
        assert(self.pages() =~= Seq::empty());
        let empty_array = String::from_str("[]");
        if payload.as_str().is_empty() || payload == empty_array {
            Ok(None)
        } else {
            Ok(Some(payload))
        }
    }

    /// Takes one page from the channel.
    ///
    /// The page joins the buffer. If the buffer has then come within the
    /// headroom of the request limit, it is flushed: the result holds the
    /// payload to send, the buffer is empty again. A page that alone exceeds
    /// the limit is flushed like any other.
    pub fn receive(&mut self, page: String) -> (r: Result<Option<String>, TransformError>)
        requires
            old(self).wf(),
        ensures
            final(self).wf(),
            final(self).same_setup(old(self)),
            flush_due(
                total_bytes(old(self).pages().push(page@)),
                old(self).headroom() as nat,
                old(self).limit() as nat,
            ) ==> {
                &&& payload_text_of(r) == flushed(
                    old(self).composer(),
                    old(self).transformer(),
                    old(self).pages().push(page@),
                )
                &&& r is Ok ==> final(self).pages() == Seq::<Seq<char>>::empty()
                &&& r is Err ==> final(self).pages() == old(self).pages().push(page@)
            },
            !flush_due(
                total_bytes(old(self).pages().push(page@)),
                old(self).headroom() as nat,
                old(self).limit() as nat,
            ) ==> {
                &&& r == Ok::<Option<String>, TransformError>(None)
                &&& final(self).pages() == old(self).pages().push(page@)
            },
    {
        let page_bytes = str_byte_len(page.as_str());
        self.buffer_bytes = self.buffer_bytes.saturating_add(page_bytes);
        let ghost before = self.pages();
        self.buffer.push(page);
        proof {
            assert(self.pages() =~= before.push(page@));
            assert(self.pages().drop_last() == before);
        }
        let threshold = self.max_request_size_bytes.saturating_sub(self.headroom);
        if self.buffer_bytes >= threshold {
            self.flush()
        } else {
            Ok(None)
        }
    }

    /// Ends the worker when the channel has closed.
    ///
    /// A buffer that still holds pages is flushed once more, before the
    /// sink is closed. The worker is used up and can take no further step.
    pub fn finish(self) -> (r: Result<Closing, TransformError>)
        requires
            self.wf(),
        ensures
            closing_of(r) == if self.pages().len() == 0 {
                Ok::<Option<Seq<char>>, TransformError>(None)
            } else {
                flushed(self.composer(), self.transformer(), self.pages())
            },
    {
        let mut worker = self;
        if worker.buffer.len() > 0 {
            match worker.flush() {
                Ok(Some(payload)) => Ok(Closing::SendThenClose(payload)),
                Ok(None) => Ok(Closing::Close),
                Err(e) => Err(e),
            }
        } else {
            Ok(Closing::Close)
        }
    }
}

/// What is left to do for a worker whose channel has closed.
#[derive(Debug, PartialEq, Eq)]
pub enum Closing {
    /// Send this last payload, then close the sink.
    SendThenClose(String),
    /// Close the sink; there is nothing left to send.
    Close,
}

/// The last payload of a closing worker, where it has one; or the failure
/// that kept it from composing one.
pub open spec fn closing_of(r: Result<Closing, TransformError>) -> Result<
    Option<Seq<char>>,
    TransformError,
> {
    match r {
        Ok(Closing::SendThenClose(payload)) => Ok(Some(payload@)),
        Ok(Closing::Close) => Ok(None),
        Err(e) => Err(e),
    }
}

/// The text of what a step hands back.
pub open spec fn payload_text_of(r: Result<Option<String>, TransformError>) -> Result<
    Option<Seq<char>>,
    TransformError,
> {
    match r {
        Ok(payload) => Ok(payload_text(payload)),
        Err(e) => Err(e),
    }
}

} // verus!
