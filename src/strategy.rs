//! The execution strategies, their configuration, and the sequential one.
use vstd::prelude::*;

use crate::collector::Collector;
use crate::outcome::{outcome_spec, ErrorKind, FetchOutcome};

verus! {

/// How fetch tasks are spread over computing resources.
#[derive(Clone, Copy, Debug, PartialEq, Eq, Structural)]
pub enum Strategy {
    /// One control flow, one blocking fetch after another.
    Sequential,
    /// One OS thread spawned per URL, all spawned before any is joined.
    ThreadPerTask,
    /// A fixed number of worker threads drawing tasks from a shared queue.
    BoundedPool { workers: usize },
    /// A cooperative scheduler multiplexing every task over a fixed number of
    /// carrier threads; a task yields its carrier while it waits on the
    /// network.
    Cooperative { carriers: usize },
}

/// Whether the HTTP client is made once for the whole run or once per task.
#[derive(Clone, Copy, Debug, PartialEq, Eq, Structural)]
pub enum ClientPolicy {
    Shared,
    PerTask,
}

/// A strategy together with its client policy, which is kept configurable
/// because it is one of the things being compared.
#[derive(Clone, Copy, Debug, PartialEq, Eq, Structural)]
pub struct StrategyConfig {
    pub strategy: Strategy,
    pub client_policy: ClientPolicy,
}

/// The client policy that goes with a strategy unless one is chosen: a client
/// per task for a thread per task, one shared client otherwise.
pub open spec fn default_policy(s: Strategy) -> ClientPolicy {
    match s {
        Strategy::ThreadPerTask => ClientPolicy::PerTask,
        _ => ClientPolicy::Shared,
    }
}

/// A strategy whose thread counts are all at least one.
pub open spec fn valid_strategy(s: Strategy) -> bool {
    match s {
        Strategy::BoundedPool { workers } => workers >= 1,
        Strategy::Cooperative { carriers } => carriers >= 1,
        _ => true,
    }
}

impl Strategy {
    /// A bounded pool of `workers` threads; none when `workers` is zero, as
    /// such a pool would never run a task.
    pub fn bounded_pool(workers: usize) -> (r: Option<Strategy>)
        ensures
            workers == 0 ==> r.is_none(),
            workers > 0 ==> r == Some(Strategy::BoundedPool { workers }),
    {
        if workers == 0 {
            None
        } else {
            Some(Strategy::BoundedPool { workers })
        }
    }

    /// A cooperative pool over `carriers` threads; none when `carriers` is
    /// zero.
    pub fn cooperative(carriers: usize) -> (r: Option<Strategy>)
        ensures
            carriers == 0 ==> r.is_none(),
            carriers > 0 ==> r == Some(Strategy::Cooperative { carriers }),
    {
        if carriers == 0 {
            None
        } else {
            Some(Strategy::Cooperative { carriers })
        }
    }

    /// Whether the outcomes of a run come back in input order. Only the
    /// sequential strategy promises it; the others report in completion
    /// order.
    pub fn preserves_input_order(&self) -> (r: bool)
        ensures
            r == (*self == Strategy::Sequential),
    {
        match self {
            Strategy::Sequential => true,
            _ => false,
        }
    }

    /// The name under which the strategy is reported.
    pub fn name(&self) -> (r: &'static str)
        ensures
            r@ == strategy_name(*self),
    {
        match self {
            Strategy::Sequential => "sequential",
            Strategy::ThreadPerTask => "thread-per-task",
            Strategy::BoundedPool { .. } => "bounded-pool",
            Strategy::Cooperative { .. } => "cooperative",
        }
    }
}

/// The name of each strategy.
pub open spec fn strategy_name(s: Strategy) -> Seq<char> {
    match s {
        Strategy::Sequential => "sequential"@,
        Strategy::ThreadPerTask => "thread-per-task"@,
        Strategy::BoundedPool { .. } => "bounded-pool"@,
        Strategy::Cooperative { .. } => "cooperative"@,
    }
}

impl StrategyConfig {
    /// A strategy with the client policy chosen by the caller.
    pub fn new(strategy: Strategy, client_policy: ClientPolicy) -> (c: StrategyConfig)
        ensures
            c.strategy == strategy,
            c.client_policy == client_policy,
    {
        StrategyConfig { strategy, client_policy }
    }

    /// A strategy with its usual client policy.
    pub fn with_default_client(strategy: Strategy) -> (c: StrategyConfig)
        ensures
            c.strategy == strategy,
            c.client_policy == default_policy(strategy),
    {
        let client_policy = match strategy {
            Strategy::ThreadPerTask => ClientPolicy::PerTask,
            _ => ClientPolicy::Shared,
        };
        StrategyConfig { strategy, client_policy }
    }

    /// Whether each task makes a client of its own.
    pub fn client_per_task(&self) -> (r: bool)
        ensures
            r == (self.client_policy == ClientPolicy::PerTask),
    {
        match self.client_policy {
            ClientPolicy::PerTask => true,
            ClientPolicy::Shared => false,
        }
    }
}

/// `o` is the outcome of one call of `fetch` on `url`.
pub open spec fn fetched_by<F: Fn(&String) -> Result<usize, ErrorKind>>(fetch: F, url: String, o: FetchOutcome) -> bool {
    exists|r: Result<usize, ErrorKind>| #[trigger] call_ensures(fetch, (&url,), r) && outcome_spec(url@, r, o)
}

/// Runs every fetch one after the other, in input order, with the client
/// that `fetch` closes over, and records each outcome as it comes.
///
/// The returned collector is complete, its outcomes are in input order, and
/// each is what `fetch` returned for its URL.
pub fn run_sequential<F: Fn(&String) -> Result<usize, ErrorKind>>(urls: Vec<String>, fetch: F) -> (c: Collector)
    requires
        urls.len() <= u64::MAX,
        forall|i: int| 0 <= i < urls.len() ==> call_requires(fetch, (&#[trigger] urls@[i],)),
    ensures
        c.wf(),
        c.complete(),
        c.urls() == urls@,
        forall|k: int| 0 <= k < urls.len() ==> #[trigger] c.positions()[k] == k,
        forall|k: int| 0 <= k < urls.len() ==> fetched_by(fetch, urls@[k], #[trigger] c.outcomes()[k]),
{
    let ghost input = urls@;
    let n = urls.len();
    let mut c = Collector::new(urls);
    let mut i: usize = 0;
    while i < n
        invariant
            n == input.len(),
            i <= n,
            c.wf(),
            c.urls() == input,
            c.outcomes().len() == i,
            forall|j: int| 0 <= j < input.len() ==> call_requires(fetch, (&#[trigger] input[j],)),
            forall|k: int| 0 <= k < i ==> #[trigger] c.positions()[k] == k,
            forall|k: int| 0 <= k < i ==> fetched_by(fetch, input[k], #[trigger] c.outcomes()[k]),
        decreases n - i,
    {
        let result = fetch(c.url(i));
        proof {
            assert(!c.recorded(i as int)) by {
                if c.recorded(i as int) {
                    let k = choose|k: int| 0 <= k < c.positions().len() && c.positions()[k] == i as int;
                }
            }
        }
        let ghost before = c.outcomes();
        c.record(i, result);
        proof {
            assert forall|k: int| 0 <= k < i + 1 implies fetched_by(fetch, input[k], #[trigger] c.outcomes()[k]) by {
                if k < i {
                    assert(c.outcomes()[k] == c.outcomes().drop_last()[k]);
                } else {
                    assert(call_ensures(fetch, (&input[k],), result));
                }
            }
        }
        i = i + 1;
    }
    c
}

} // verus!
