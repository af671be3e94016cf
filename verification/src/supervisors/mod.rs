//! The supervisor and its workers: what each decides between one act of
//! input or output and the next.

pub mod run;
pub mod workers;

use crate::app_config::AppConfig;
use vstd::prelude::*;

verus! {

/// Builds the workers of one run and settles what the run reports.
#[derive(Debug)]
pub struct Supervisor {
    app_config: AppConfig,
}

/// The first failure among the results, in order; success where there is none.
pub open spec fn first_failure<E>(results: Seq<Result<(), E>>) -> Result<(), E>
    decreases results.len(),
{
    if results.len() == 0 {
        Ok(())
    } else {
        match results[0] {
            Err(e) => Err(e),
            Ok(_) => first_failure(results.drop_first()),
        }
    }
}

impl Supervisor {
    /// The configuration that the supervisor was built with.
    pub closed spec fn config(&self) -> AppConfig {
        self.app_config
    }

    /// A supervisor for one run.
    pub fn new(app_config: AppConfig) -> (supervisor: Self)
        ensures
            supervisor.config() == app_config,
    {
        Supervisor { app_config }
    }

    /// Capacity of the channel between the source worker and the sink workers.
    pub fn queue_capacity(&self) -> (n: usize)
        ensures
            n == self.config().runtime.queue_capacity,
    {
        self.app_config.runtime.queue_capacity
    }

    /// Number of sink workers that share the channel.
    pub fn sink_parallelism(&self) -> (n: usize)
        ensures
            n == self.config().runtime.sink_parallelism,
    {
        self.app_config.runtime.sink_parallelism
    }

    /// What a run reports once all its workers have ended: the first failure
    /// in the order in which the workers were started, or success.
    pub fn first_error<E>(results: Vec<Result<(), E>>) -> (outcome: Result<(), E>)
        ensures
            outcome == first_failure(results@),
    {
        let mut results = results;
        let ghost all = results@;
        // Walk from the back so that the earliest failure is the one kept.
        let mut outcome: Result<(), E> = Ok(());
        while results.len() > 0
            invariant
                results.len() <= all.len(),
                results@ == all.take(results.len() as int),
                outcome == first_failure(all.skip(results.len() as int)),
            decreases results.len(),
        {
            let ghost n = results.len() as int;
            let last = results.pop().unwrap();
            proof {
                assert(all.skip(n - 1).drop_first() =~= all.skip(n));
                assert(all.skip(n - 1)[0] == all[n - 1]);
                assert(results@ =~= all.take(n - 1));
                assert(last == all.take(n)[n - 1]);
            }
            match last {
                Err(e) => {
                    outcome = Err(e);
                },
                Ok(_) => {},
            }
        }
        assert(all.skip(0) == all);
        outcome
    }
}

} // verus!
