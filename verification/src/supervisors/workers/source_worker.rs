//! The source worker: every page the source yields goes into the channel;
//! the end of the stream closes the channel.
//!
//! The worker here only decides; whoever drives it polls the source and
//! performs what the worker says.

use vstd::prelude::*;

verus! {

/// What the source worker does with what the source handed it.
#[derive(Debug)]
pub enum SourceAction {
    /// Send the page into the channel, waiting while the channel is full,
    /// then poll the source again.
    Send(String),
    /// Close the channel and stop. The source is not polled again.
    Close,
}

/// The state of the pump between two polls of the source.
#[derive(Debug)]
pub struct SourceWorker {
    finished: bool,
}

impl SourceWorker {
    /// Whether the source has reported the end of its stream.
    pub closed spec fn is_finished(&self) -> bool {
        self.finished
    }

    /// A worker whose source has not been polled yet.
    pub fn new() -> (worker: Self)
        ensures
            !worker.is_finished(),
    {
        SourceWorker { finished: false }
    }

    /// Whether the source has reported the end of its stream.
    pub fn has_finished(&self) -> (finished: bool)
        ensures
            finished == self.is_finished(),
    {
        self.finished
    }

    /// Decides what to do with the result of one poll.
    ///
    /// A source reports the end of its stream once; a worker that has seen
    /// it takes no further step.
    pub fn step(&mut self, polled: Option<String>) -> (action: SourceAction)
        requires
            !old(self).is_finished(),
        ensures
            match polled {
                Some(page) => action == SourceAction::Send(page) && !final(self).is_finished(),
                None => action == SourceAction::Close && final(self).is_finished(),
            },
    {
        match polled {
            Some(page) => SourceAction::Send(page),
            None => {
                self.finished = true;
                SourceAction::Close
            },
        }
    }
}

} // verus!
