//! Properties that relate several runs.
use vstd::prelude::*;

use crate::collector::{report_for, Collector, RunReport};
use crate::outcome::ErrorKind;
use crate::strategy::fetched_by;

verus! {

/// Some entry of `positions` is `i`.
pub open spec fn has_outcome(positions: Seq<usize>, i: int) -> bool {
    exists|k: int| 0 <= k < positions.len() && positions[k] == i
}

/// A finished run, whatever its strategy, holds exactly one outcome for each
/// input URL, and its completion counter ends at the number of URLs.
pub proof fn lemma_one_outcome_per_url(r: RunReport, urls: Seq<String>)
    requires
        report_for(r, urls),
    ensures
        r.outcomes@.len() == urls.len(),
        r.counter_final == urls.len(),
        forall|i: int| 0 <= i < urls.len() ==> #[trigger] has_outcome(r.positions@, i),
        forall|k1: int, k2: int|
            0 <= k1 < r.positions@.len() && 0 <= k2 < r.positions@.len() && #[trigger] r.positions@[k1] == #[trigger] r.positions@[k2]
                ==> k1 == k2,
        forall|k: int| 0 <= k < r.outcomes@.len() ==> (#[trigger] r.outcomes@[k]).url@ == urls[r.positions@[k] as int]@,
{
    let ps = r.positions@.map_values(|p: usize| p as int);
    assert forall|i: int| 0 <= i < urls.len() implies #[trigger] has_outcome(r.positions@, i) by {
        assert(ps.contains(i));
        let k = choose|k: int| 0 <= k < ps.len() && ps[k] == i;
        assert(r.positions@[k] == i);
    }
    assert forall|k1: int, k2: int|
        0 <= k1 < r.positions@.len() && 0 <= k2 < r.positions@.len() && #[trigger] r.positions@[k1] == #[trigger] r.positions@[k2]
            implies k1 == k2 by {
        assert(ps[k1] == ps[k2]);
    }
    assert forall|k: int| 0 <= k < r.outcomes@.len() implies (#[trigger] r.outcomes@[k]).url@ == urls[r.positions@[k] as int]@ by {
        assert(ps[k] == r.positions@[k] as int);
    }
}

/// In every state of a run the completion counter equals the number of tasks
/// that have reported, and so never exceeds the number of URLs.
pub proof fn lemma_counter_bounded(c: Collector)
    requires
        c.wf(),
    ensures
        c.counted() == c.outcomes().len(),
        c.counted() <= c.urls().len(),
{
    crate::collector::lemma_distinct_bound(c.positions(), c.urls().len(), 0);
}

/// `fetch` gives one answer per URL: any two of its results on the same URL
/// are equal.
pub open spec fn deterministic<F: Fn(&String) -> Result<usize, ErrorKind>>(fetch: F) -> bool {
    forall|u: String, r1: Result<usize, ErrorKind>, r2: Result<usize, ErrorKind>|
        #[trigger] call_ensures(fetch, (&u,), r1) && #[trigger] call_ensures(fetch, (&u,), r2) ==> r1 == r2
}

/// Every outcome of `r` is what `fetch` returned for the URL at its input
/// position.
pub open spec fn produced_by<F: Fn(&String) -> Result<usize, ErrorKind>>(r: RunReport, urls: Seq<String>, fetch: F) -> bool {
    forall|k: int| 0 <= k < r.outcomes@.len() ==> fetched_by(fetch, urls[r.positions@[k] as int], #[trigger] r.outcomes@[k])
}

/// Two runs over the same URLs with one deterministic client agree on every
/// URL: the outcomes that two reports hold for one input position have the
/// same byte size and the same error, whatever the order in which the tasks
/// finished in each run.
pub proof fn lemma_runs_agree<F: Fn(&String) -> Result<usize, ErrorKind>>(
    fetch: F,
    urls: Seq<String>,
    a: RunReport,
    b: RunReport,
)
    requires
        deterministic(fetch),
        report_for(a, urls),
        report_for(b, urls),
        produced_by(a, urls, fetch),
        produced_by(b, urls, fetch),
    ensures
        forall|ka: int, kb: int|
            0 <= ka < urls.len() && 0 <= kb < urls.len() && #[trigger] a.positions@[ka] == #[trigger] b.positions@[kb]
                ==> a.outcomes@[ka].byte_size == b.outcomes@[kb].byte_size && a.outcomes@[ka].error == b.outcomes@[kb].error,
{
    assert forall|ka: int, kb: int|
        0 <= ka < urls.len() && 0 <= kb < urls.len() && #[trigger] a.positions@[ka] == #[trigger] b.positions@[kb]
            implies a.outcomes@[ka].byte_size == b.outcomes@[kb].byte_size && a.outcomes@[ka].error == b.outcomes@[kb].error by {
        let u = urls[a.positions@[ka] as int];
        assert(fetched_by(fetch, u, a.outcomes@[ka]));
        assert(fetched_by(fetch, u, b.outcomes@[kb]));
        let ra = choose|r: Result<usize, ErrorKind>| #[trigger] call_ensures(fetch, (&u,), r) && crate::outcome::outcome_spec(u@, r, a.outcomes@[ka]);
        let rb = choose|r: Result<usize, ErrorKind>| #[trigger] call_ensures(fetch, (&u,), r) && crate::outcome::outcome_spec(u@, r, b.outcomes@[kb]);
        assert(ra == rb);
    }
}

} // verus!
