//! A source and a sink held in memory, for fixtures.

use vstd::prelude::*;
use vstd::string::StringExecFns;

verus! {

/// The one page that the in-memory source yields: four documents, one per
/// line.
pub open spec fn fixture_page() -> Seq<char> {
    "{\"doc\":1}\n{\"doc\":2}\n{\"doc\":3}\n{\"doc\":4}"@
}

/// A source that yields [`fixture_page`] once and then ends.
#[derive(Debug, Default)]
pub struct InMemorySource {
    has_yielded: bool,
}

impl InMemorySource {
    /// Whether the page has been handed out.
    pub closed spec fn has_yielded(&self) -> bool {
        self.has_yielded
    }

    /// A source that still holds its page.
    pub fn new() -> (source: Self)
        ensures
            !source.has_yielded(),
    {
        InMemorySource { has_yielded: false }
    }

    /// The fixture page on the first call, the end of the stream after that.
    pub fn next_page(&mut self) -> (page: Option<String>)
        ensures
            final(self).has_yielded(),
            old(self).has_yielded() ==> page is None,
            !old(self).has_yielded() ==> page is Some && page.unwrap()@ == fixture_page(),
    {
        if self.has_yielded {
            return None;
        }
        self.has_yielded = true;
        Some(String::from_str("{\"doc\":1}\n{\"doc\":2}\n{\"doc\":3}\n{\"doc\":4}"))
    }
}

/// A sink that keeps every payload it is sent, in order.
#[derive(Debug, Default)]
pub struct InMemorySink {
    received: Vec<String>,
    closed: bool,
}

impl InMemorySink {
    /// The payloads received so far, oldest first.
    pub closed spec fn received(&self) -> Seq<Seq<char>> {
        crate::text::texts(self.received@)
    }

    /// Whether the sink has been closed.
    pub closed spec fn is_closed(&self) -> bool {
        self.closed
    }

    /// An open sink that has received nothing.
    pub fn new() -> (sink: Self)
        ensures
            sink.received() == Seq::<Seq<char>>::empty(),
            !sink.is_closed(),
    {
        let sink = InMemorySink { received: Vec::new(), closed: false };
        assert(sink.received() =~= Seq::empty());
        sink
    }

    /// Keeps the payload after those received before.
    pub fn send(&mut self, payload: String)
        requires
            !old(self).is_closed(),
        ensures
            final(self).received() == old(self).received().push(payload@),
            !final(self).is_closed(),
    {
        self.received.push(payload);
        assert(self.received() =~= old(self).received().push(payload@));
    }

    /// Closes the sink. What it received stays readable.
    pub fn close(&mut self)
        requires
            !old(self).is_closed(),
        ensures
            final(self).received() == old(self).received(),
            final(self).is_closed(),
    {
        self.closed = true;
    }

    /// Whether the sink has been closed.
    pub fn has_closed(&self) -> (closed: bool)
        ensures
            closed == self.is_closed(),
    {
        self.closed
    }

    /// The number of payloads received.
    pub fn len(&self) -> (n: usize)
        ensures
            n == self.received().len(),
    {
        self.received.len()
    }

    /// The payload received at position `i`.
    pub fn payload(&self, i: usize) -> (payload: &String)
        requires
            i < self.received().len(),
        ensures
            payload@ == self.received()[i as int],
    {
        &self.received[i]
    }
}

} // verus!
