//! The choice of a scheduler, made once when the server starts.

use vstd::prelude::*;
use vstd::string::StringExecFns;
use crate::exposition::decimal;
use crate::exposition::push_decimal;

verus! {

/// Fewest worker threads of a pool.
pub const MIN_THREADS: usize = 1;

/// Most worker threads of a pool.
pub const MAX_THREADS: usize = 512;

/// How the server's tasks are run.
#[derive(Clone, Copy, Debug, PartialEq, Eq, Structural)]
pub enum Scheduler {
    /// All tasks take turns on one thread.
    Basic,
    /// A pool of worker threads, as many as the machine suggests.
    Threaded,
    /// A pool of `threads` worker threads.
    Pool { threads: usize },
}

/// `threads` brought into the range from `MIN_THREADS` to `MAX_THREADS`.
pub open spec fn clamped(threads: usize) -> usize {
    if threads > MAX_THREADS {
        MAX_THREADS
    } else if threads < MIN_THREADS {
        MIN_THREADS
    } else {
        threads
    }
}

impl Scheduler {
    /// The scheduler for what was asked for: nothing, threads, or a number of threads.
    pub open spec fn chosen(threads: Option<Option<usize>>) -> Scheduler {
        match threads {
            None => Scheduler::Basic,
            Some(None) => Scheduler::Threaded,
            Some(Some(threads)) => Scheduler::Pool { threads: clamped(threads) },
        }
    }

    /// The scheduler in words.
    pub open spec fn description(self) -> Seq<char> {
        match self {
            Scheduler::Basic => "basic"@,
            Scheduler::Threaded => "threaded"@,
            Scheduler::Pool { threads } => "threaded, threads: "@ + decimal(threads as nat),
        }
    }

    /// Chooses the scheduler for what was asked for.
    pub fn new(threads: Option<Option<usize>>) -> (scheduler: Scheduler)
        ensures
            scheduler == Scheduler::chosen(threads),
            scheduler matches Scheduler::Pool { threads } ==> MIN_THREADS <= threads <= MAX_THREADS,
    {
        match threads {
            None => Scheduler::Basic,
            Some(None) => Scheduler::Threaded,
            Some(Some(threads)) => {
                if threads > MAX_THREADS {
                    Scheduler::Pool { threads: MAX_THREADS }
                } else if threads < MIN_THREADS {
                    Scheduler::Pool { threads: MIN_THREADS }
                } else {
                    Scheduler::Pool { threads }
                }
            },
        }
    }

    /// Says in words which scheduler this is.
    pub fn describe(&self) -> (text: String)
        ensures
            text@ == self.description(),
    {
        match self {
            Scheduler::Basic => String::from_str("basic"),
            Scheduler::Threaded => String::from_str("threaded"),
            Scheduler::Pool { threads } => {
                let mut text = String::from_str("threaded, threads: ");
                push_decimal(&mut text, *threads as u64);
                text
            },
        }
    }
}

} // verus!
