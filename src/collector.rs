//! Collecting the outcomes of one run, in the order in which tasks finish.
use vstd::prelude::*;
use vstd::set_lib::{lemma_int_range, lemma_len_subset, lemma_subset_equality, set_int_range};

use crate::counter::CompletionCounter;
use crate::outcome::{outcome_spec, ErrorKind, FetchOutcome};

verus! {

/// Every position `0 <= i < n` occurs in `positions`.
pub open spec fn covers(positions: Seq<int>, n: nat) -> bool {
    forall|i: int| 0 <= i < n ==> #[trigger] positions.contains(i)
}

/// `positions` names each of the `n` input positions at most once.
pub open spec fn distinct_in_range(positions: Seq<int>, n: nat) -> bool {
    &&& positions.no_duplicates()
    &&& forall|k: int| 0 <= k < positions.len() ==> 0 <= #[trigger] positions[k] < n
}

/// The `k`-th outcome belongs to the URL at input position `positions[k]`.
pub open spec fn matches_urls(outcomes: Seq<FetchOutcome>, positions: Seq<int>, urls: Seq<String>) -> bool {
    &&& outcomes.len() == positions.len()
    &&& forall|k: int| 0 <= k < outcomes.len() ==> #[trigger] outcomes[k].url@ == urls[positions[k]]@
}

/// A sequence of distinct positions below `n` holds at most `n` of them, and
/// fewer when one position below `n` is missing.
pub proof fn lemma_distinct_bound(positions: Seq<int>, n: nat, missing: int)
    requires
        distinct_in_range(positions, n),
    ensures
        positions.len() <= n,
        0 <= missing < n && !positions.contains(missing) ==> positions.len() < n,
{
    positions.unique_seq_to_set();
    lemma_int_range(0, n as int);
    let range = set_int_range(0, n as int);
    assert(positions.to_set().subset_of(range)) by {
        assert forall|x: int| positions.to_set().contains(x) implies range.contains(x) by {
            let k = choose|k: int| 0 <= k < positions.len() && positions[k] == x;
        }
    }
    lemma_len_subset(positions.to_set(), range);
    if 0 <= missing < n && !positions.contains(missing) {
        assert(positions.to_set().subset_of(range.remove(missing)));
        lemma_len_subset(positions.to_set(), range.remove(missing));
    }
}

/// Distinct positions below `n`, `n` of them, name every position below `n`.
pub proof fn lemma_full_covers(positions: Seq<int>, n: nat)
    requires
        distinct_in_range(positions, n),
        positions.len() == n,
    ensures
        covers(positions, n),
{
    assert forall|i: int| 0 <= i < n implies #[trigger] positions.contains(i) by {
        lemma_distinct_bound(positions, n, i);
    }
}

/// The outcomes of one run and the completion counter, shared by all of its
/// tasks.
///
/// Each task reports once, by its input position, under whatever lock the
/// strategy uses. A task counts as complete when it reaches a terminal state:
/// a failed fetch counts as much as a successful one, so the final count is
/// the number of URLs however many of them failed.
pub struct Collector {
    urls: Vec<String>,
    done: Vec<bool>,
    outcomes: Vec<FetchOutcome>,
    positions: Vec<usize>,
    counter: CompletionCounter,
}

/// What a finished run hands back.
///
/// `outcomes` are in completion order and `positions[k]` is the input
/// position of `outcomes[k]`; `counter_final` is the completion counter at
/// the end, and `elapsed_nanos` the wall time from dispatch to collection.
pub struct RunReport {
    pub outcomes: Vec<FetchOutcome>,
    pub positions: Vec<usize>,
    pub elapsed_nanos: u64,
    pub counter_final: u64,
}

/// A report for the input `urls`: one outcome per URL, none dropped and none
/// repeated, and a counter that saw every task.
pub open spec fn report_for(r: RunReport, urls: Seq<String>) -> bool {
    let positions = r.positions@.map_values(|p: usize| p as int);
    &&& r.outcomes@.len() == urls.len()
    &&& r.counter_final == urls.len()
    &&& distinct_in_range(positions, urls.len())
    &&& covers(positions, urls.len())
    &&& matches_urls(r.outcomes@, positions, urls)
}

/// No outcome in `outcomes` carries an error.
pub open spec fn all_ok(outcomes: Seq<FetchOutcome>) -> bool {
    forall|k: int| 0 <= k < outcomes.len() ==> (#[trigger] outcomes[k]).error.is_none()
}

/// The number of outcomes in `outcomes` that carry an error.
pub open spec fn failures(outcomes: Seq<FetchOutcome>) -> nat
    decreases outcomes.len(),
{
    if outcomes.len() == 0 {
        0
    } else {
        failures(outcomes.drop_last()) + if outcomes.last().error.is_some() { 1nat } else { 0nat }
    }
}

/// No outcomes carry an error exactly when none is counted as failed.
pub proof fn lemma_failures_zero(outcomes: Seq<FetchOutcome>)
    ensures
        (failures(outcomes) == 0) == all_ok(outcomes),
        failures(outcomes) <= outcomes.len(),
    decreases outcomes.len(),
{
    if outcomes.len() > 0 {
        lemma_failures_zero(outcomes.drop_last());
        if !all_ok(outcomes) && outcomes.last().error.is_none() {
            let k = choose|k: int| 0 <= k < outcomes.len() && (#[trigger] outcomes[k]).error.is_some();
            assert(outcomes.drop_last()[k] == outcomes[k]);
        }
    }
}

impl RunReport {
    /// Whether every fetch of the run read a full body.
    pub fn all_succeeded(&self) -> (r: bool)
        ensures
            r == all_ok(self.outcomes@),
    {
        let mut k: usize = 0;
        while k < self.outcomes.len()
            invariant
                k <= self.outcomes@.len(),
                all_ok(self.outcomes@.take(k as int)),
            decreases self.outcomes@.len() - k,
        {
            if self.outcomes[k].error.is_some() {
                assert(self.outcomes@[k as int].error.is_some());
                return false;
            }
            assert(self.outcomes@.take(k as int + 1)[k as int] == self.outcomes@[k as int]);
            k = k + 1;
        }
        assert(self.outcomes@.take(k as int) =~= self.outcomes@);
        true
    }

    /// The number of fetches of the run that failed.
    pub fn failure_count(&self) -> (r: usize)
        ensures
            r == failures(self.outcomes@),
    {
        let mut k: usize = 0;
        let mut n: usize = 0;
        while k < self.outcomes.len()
            invariant
                k <= self.outcomes@.len(),
                n == failures(self.outcomes@.take(k as int)),
            decreases self.outcomes@.len() - k,
        {
            proof {
                assert(self.outcomes@.take(k as int + 1).drop_last() =~= self.outcomes@.take(k as int));
                lemma_failures_zero(self.outcomes@.take(k as int));
            }
            if self.outcomes[k].error.is_some() {
                n = n + 1;
            }
            k = k + 1;
        }
        assert(self.outcomes@.take(k as int) =~= self.outcomes@);
        n
    }

    /// For each input position, the index in `outcomes` of its outcome: the
    /// report read back in input order.
    pub fn input_order(&self) -> (r: Vec<usize>)
        requires
            self.positions@.len() == self.outcomes@.len(),
            distinct_in_range(self.positions@.map_values(|p: usize| p as int), self.outcomes@.len()),
        ensures
            r@.len() == self.outcomes@.len(),
            forall|i: int| 0 <= i < r@.len() ==> #[trigger] r@[i] < self.positions@.len() && self.positions@[r@[i] as int] == i,
    {
        let n = self.positions.len();
        let ghost ps = self.positions@.map_values(|p: usize| p as int);
        proof {
            lemma_full_covers(ps, n as nat);
            assert forall|k2: int| 0 <= k2 < n implies #[trigger] self.positions@[k2] < n by {
                assert(ps[k2] == self.positions@[k2] as int);
            }
        }
        let mut inv: Vec<usize> = Vec::new();
        let mut i: usize = 0;
        while i < n
            invariant
                i <= n,
                inv@.len() == i,
                forall|j: int| 0 <= j < i ==> #[trigger] inv@[j] == n,
            decreases n - i,
        {
            inv.push(n);
            i = i + 1;
        }
        let mut k: usize = 0;
        while k < n
            invariant
                n == self.positions@.len(),
                ps == self.positions@.map_values(|p: usize| p as int),
                distinct_in_range(ps, n as nat),
                forall|k2: int| 0 <= k2 < n ==> #[trigger] self.positions@[k2] < n,
                k <= n,
                inv@.len() == n,
                forall|j: int| 0 <= j < n ==> (#[trigger] inv@[j] == n || (inv@[j] < k && self.positions@[inv@[j] as int] == j)),
                forall|k2: int| 0 <= k2 < k ==> inv@[#[trigger] self.positions@[k2] as int] == k2,
            decreases n - k,
        {
            assert(ps[k as int] == self.positions@[k as int] as int);
            let p = self.positions[k];
            proof {
                assert forall|k2: int| 0 <= k2 < k implies self.positions@[k2] != p by {
                    assert(ps[k2] == self.positions@[k2] as int);
                }
            }
            inv.set(p, k);
            k = k + 1;
        }
        proof {
            assert forall|j: int| 0 <= j < n implies #[trigger] inv@[j] < n && self.positions@[inv@[j] as int] == j by {
                assert(ps.contains(j));
                let k2 = choose|k2: int| 0 <= k2 < ps.len() && ps[k2] == j;
                assert(self.positions@[k2] as int == j);
            }
        }
        inv
    }

    /// The process status that the run calls for: zero when every fetch
    /// succeeded, one when at least one failed.
    pub fn exit_code(&self) -> (r: i32)
        ensures
            r == (if all_ok(self.outcomes@) { 0i32 } else { 1i32 }),
    {
        if self.all_succeeded() {
            0
        } else {
            1
        }
    }
}

impl Collector {
    /// The URLs of the run, by input position.
    pub closed spec fn urls(&self) -> Seq<String> {
        self.urls@
    }

    /// The outcomes recorded so far, in completion order.
    pub closed spec fn outcomes(&self) -> Seq<FetchOutcome> {
        self.outcomes@
    }

    /// The input position of each recorded outcome.
    pub closed spec fn positions(&self) -> Seq<int> {
        self.positions@.map_values(|p: usize| p as int)
    }

    /// The value of the completion counter.
    pub closed spec fn counted(&self) -> nat {
        self.counter.value()
    }

    /// The private bookkeeping agrees with the model above.
    pub closed spec fn storage_ok(&self) -> bool {
        &&& self.done@.len() == self.urls@.len()
        &&& self.counter.limit() == self.urls@.len()
        &&& self.positions@.len() == self.outcomes@.len()
        &&& forall|i: int| 0 <= i < self.done@.len() ==> (#[trigger] self.done@[i] <==> self.positions().contains(i))
    }

    pub open spec fn wf(&self) -> bool {
        &&& self.storage_ok()
        &&& self.counted() == self.outcomes().len()
        &&& distinct_in_range(self.positions(), self.urls().len())
        &&& matches_urls(self.outcomes(), self.positions(), self.urls())
    }

    /// Whether the task at input position `i` has reported.
    pub open spec fn recorded(&self, i: int) -> bool {
        self.positions().contains(i)
    }

    /// Whether every task has reported.
    pub open spec fn complete(&self) -> bool {
        self.outcomes().len() == self.urls().len()
    }

    /// A collector for a run over `urls`, with nothing recorded and the
    /// counter at zero.
    pub fn new(urls: Vec<String>) -> (c: Collector)
        requires
            urls.len() <= u64::MAX,
        ensures
            c.wf(),
            c.urls() == urls@,
            c.outcomes() == Seq::<FetchOutcome>::empty(),
            c.positions() == Seq::<int>::empty(),
            c.counted() == 0,
    {
        let n = urls.len();
        let mut done: Vec<bool> = Vec::new();
        let mut i: usize = 0;
        while i < n
            invariant
                i <= n,
                done@.len() == i,
                forall|j: int| 0 <= j < i ==> !#[trigger] done@[j],
            decreases n - i,
        {
            done.push(false);
            i = i + 1;
        }
        let c = Collector {
            urls,
            done,
            outcomes: Vec::new(),
            positions: Vec::new(),
            counter: CompletionCounter::new(n as u64),
        };
        assert(c.positions() =~= Seq::<int>::empty());
        c
    }

    /// The number of URLs in the run.
    pub fn len(&self) -> (r: usize)
        ensures
            r == self.urls().len(),
    {
        self.urls.len()
    }

    /// The URL at input position `i`.
    pub fn url(&self, i: usize) -> (r: &String)
        requires
            i < self.urls().len(),
        ensures
            r == self.urls()[i as int],
    {
        &self.urls[i]
    }

    /// Whether position `i` is a task of this run that has not reported yet.
    pub fn is_pending(&self, i: usize) -> (r: bool)
        requires
            self.wf(),
        ensures
            r == (i < self.urls().len() && !self.recorded(i as int)),
    {
        i < self.done.len() && !self.done[i]
    }

    /// The number of tasks that have reported, which is the counter's value.
    pub fn completed(&self) -> (r: u64)
        requires
            self.wf(),
        ensures
            r == self.counted(),
            r == self.outcomes().len(),
            r <= self.urls().len(),
    {
        proof {
            lemma_distinct_bound(self.positions(), self.urls().len(), 0);
        }
        self.counter.get()
    }

    /// Whether every task has reported.
    pub fn is_complete(&self) -> (r: bool)
        requires
            self.wf(),
        ensures
            r == self.complete(),
    {
        self.outcomes.len() == self.urls.len()
    }

    /// Records what the task at input position `i` ended with, and bumps the
    /// counter by one whether the fetch succeeded or failed. Returns the new
    /// count.
    pub fn record(&mut self, i: usize, result: Result<usize, ErrorKind>) -> (r: u64)
        requires
            old(self).wf(),
            i < old(self).urls().len(),
            !old(self).recorded(i as int),
        ensures
            final(self).wf(),
            final(self).urls() == old(self).urls(),
            final(self).positions() == old(self).positions().push(i as int),
            final(self).outcomes().len() == old(self).outcomes().len() + 1,
            final(self).outcomes().drop_last() == old(self).outcomes(),
            outcome_spec(old(self).urls()[i as int]@, result, final(self).outcomes().last()),
            final(self).counted() == old(self).counted() + 1,
            final(self).counted() <= final(self).urls().len(),
            r == final(self).counted(),
    {
        proof {
            lemma_distinct_bound(self.positions(), self.urls().len(), i as int);
        }
        let ghost old_positions = self.positions();
        let url = self.urls[i].clone();
        let o = FetchOutcome::from_result(url, result);
        self.outcomes.push(o);
        self.positions.push(i);
        self.done.set(i, true);
        let r = self.counter.increment();
        proof {
            assert(self.positions() =~= old_positions.push(i as int));
            assert(self.outcomes@.drop_last() =~= old(self).outcomes@);
            assert forall|j: int| 0 <= j < self.done@.len() implies (#[trigger] self.done@[j] <==> self.positions().contains(j)) by {
                if j == i {
                    assert(self.positions()[self.positions().len() - 1] == j);
                } else if old_positions.contains(j) {
                    let k = choose|k: int| 0 <= k < old_positions.len() && old_positions[k] == j;
                    assert(self.positions()[k] == j);
                } else if self.positions().contains(j) {
                    let k = choose|k: int| 0 <= k < self.positions().len() && self.positions()[k] == j;
                    assert(k < old_positions.len());
                    assert(old_positions[k] == j);
                }
            }
            lemma_distinct_bound(self.positions(), self.urls().len(), 0);
        }
        r
    }

    /// Hands back the report of a run in which every task has reported,
    /// together with the wall time that the caller measured.
    pub fn finish(self, elapsed_nanos: u64) -> (r: RunReport)
        requires
            self.wf(),
            self.complete(),
        ensures
            report_for(r, self.urls()),
            r.outcomes@ == self.outcomes(),
            r.positions@.map_values(|p: usize| p as int) == self.positions(),
            forall|k: int| 0 <= k < r.positions@.len() ==> #[trigger] r.positions@[k] as int == self.positions()[k],
            r.elapsed_nanos == elapsed_nanos,
    {
        proof {
            lemma_full_covers(self.positions(), self.urls().len());
        }
        let counter_final = self.counter.get();
        RunReport { outcomes: self.outcomes, positions: self.positions, elapsed_nanos, counter_final }
    }
}

} // verus!
