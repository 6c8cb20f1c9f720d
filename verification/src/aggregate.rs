//! Counting verdicts: the success and failure counters of a run and the
//! final result that is reported from them.

use crate::outcome::{Verdict, VerdictView};
use crate::text::{decimal, decimal_text};
use vstd::prelude::*;

verus! {

/// How many successes and how many failures were recorded.
pub struct Tally {
    pub successes: nat,
    pub failures: nat,
}

impl Tally {
    /// The tally before anything is recorded.
    pub open spec fn empty() -> Tally {
        Tally { successes: 0, failures: 0 }
    }

    /// The number of verdicts recorded.
    pub open spec fn total(self) -> nat {
        self.successes + self.failures
    }

    /// The tally once `verdict` is recorded too: a success adds one to the
    /// successes, a failure one to the failures.
    pub open spec fn record(self, verdict: VerdictView) -> Tally {
        match verdict {
            VerdictView::Success => Tally { successes: self.successes + 1, ..self },
            VerdictView::Failure(_) => Tally { failures: self.failures + 1, ..self },
        }
    }

    /// The tally of `verdicts`, recorded one after the other.
    pub open spec fn of(verdicts: Seq<VerdictView>) -> Tally
        decreases verdicts.len(),
    {
        if verdicts.len() == 0 {
            Tally::empty()
        } else {
            Tally::of(verdicts.drop_last()).record(verdicts.last())
        }
    }
}

/// Recording a verdict raises exactly one of the two counters, by one.
pub proof fn lemma_record_counts_once(tally: Tally, verdict: VerdictView)
    ensures
        tally.record(verdict).total() == tally.total() + 1,
        verdict is Success ==> tally.record(verdict).successes == tally.successes + 1
            && tally.record(verdict).failures == tally.failures,
        verdict is Failure ==> tally.record(verdict).failures == tally.failures + 1
            && tally.record(verdict).successes == tally.successes,
{
}

/// The order in which two verdicts are recorded does not matter.
pub proof fn lemma_records_commute(tally: Tally, first: VerdictView, second: VerdictView)
    ensures
        tally.record(first).record(second) == tally.record(second).record(first),
{
}

/// The two counters of a tally add up to the number of verdicts recorded.
pub proof fn lemma_tally_counts_every_verdict(verdicts: Seq<VerdictView>)
    ensures
        Tally::of(verdicts).total() == verdicts.len(),
    decreases verdicts.len(),
{
    if verdicts.len() > 0 {
        lemma_tally_counts_every_verdict(verdicts.drop_last());
    }
}

/// The tally of a sequence is that of the sequence without one of its
/// verdicts, with that verdict recorded last.
pub proof fn lemma_tally_without_one(verdicts: Seq<VerdictView>, i: int)
    requires
        0 <= i < verdicts.len(),
    ensures
        Tally::of(verdicts) == Tally::of(verdicts.remove(i)).record(verdicts[i]),
    decreases verdicts.len(),
{
    let earlier = verdicts.drop_last();
    if i == verdicts.len() - 1 {
        assert(verdicts.remove(i) =~= earlier);
    } else {
        lemma_tally_without_one(earlier, i);
        assert(verdicts.remove(i).drop_last() =~= earlier.remove(i));
        assert(verdicts.remove(i).last() == verdicts.last());
        lemma_records_commute(Tally::of(earlier.remove(i)), verdicts[i], verdicts.last());
    }
}

/// The counts do not depend on the order in which the verdicts come in: two
/// sequences that hold the same verdicts, each as often, have one tally.
pub proof fn lemma_tally_ignores_order(first: Seq<VerdictView>, second: Seq<VerdictView>)
    requires
        first.to_multiset() == second.to_multiset(),
    ensures
        Tally::of(first) == Tally::of(second),
    decreases first.len(),
{
    first.to_multiset_ensures();
    second.to_multiset_ensures();
    if first.len() > 0 {
        let earlier = first.drop_last();
        let last = first.last();
        earlier.to_multiset_ensures();
        assert(earlier.push(last) =~= first);
        assert(first.contains(last));
        assert(first.to_multiset().count(last) > 0);
        assert(second.to_multiset().count(last) > 0);
        assert(second.contains(last));
        let i = choose|i: int| 0 <= i < second.len() && second[i] == last;
        assert(earlier.to_multiset() =~= first.to_multiset().remove(last));
        assert(second.remove(i).to_multiset() =~= second.to_multiset().remove(last));
        lemma_tally_ignores_order(earlier, second.remove(i));
        lemma_tally_without_one(second, i);
    } else {
        assert(second.len() == 0);
    }
}

/// The success and failure counters of one run.
#[derive(Clone, Copy, Debug)]
pub struct Aggregator {
    successes: u64,
    failures: u64,
}

impl View for Aggregator {
    type V = Tally;

    closed spec fn view(&self) -> Tally {
        Tally { successes: self.successes as nat, failures: self.failures as nat }
    }
}

impl Aggregator {
    /// Whether the counters are well formed: their sum fits in a `u64`.
    pub open spec fn wf(&self) -> bool {
        self@.total() <= u64::MAX
    }

    /// Counters at zero.
    pub fn new() -> (aggregator: Aggregator)
        ensures
            aggregator.wf(),
            aggregator@ == Tally::empty(),
    {
        Aggregator { successes: 0, failures: 0 }
    }

    /// Counts `verdict`.
    pub fn record(&mut self, verdict: &Verdict)
        requires
            old(self)@.total() < u64::MAX,
        ensures
            final(self).wf(),
            final(self)@ == old(self)@.record(verdict@),
    {
        match verdict {
            Verdict::Success => {
                self.successes = self.successes + 1;
            },
            Verdict::Failure(_) => {
                self.failures = self.failures + 1;
            },
        }
    }

    /// The number of verdicts counted so far.
    pub fn recorded(&self) -> (n: u64)
        requires
            self.wf(),
        ensures
            n == self@.total(),
    {
        self.successes + self.failures
    }

    /// The counters as they stand: successes, then failures.
    pub fn snapshot(&self) -> (counts: (u64, u64))
        ensures
            counts.0 == self@.successes,
            counts.1 == self@.failures,
    {
        (self.successes, self.failures)
    }
}

/// The final report of a run.
#[derive(Clone, Copy, Debug, PartialEq, Eq, Structural)]
pub struct RunResult {
    /// The executions that met the expected status.
    pub successes: u64,
    /// The executions that did not.
    pub failures: u64,
    /// The wall-clock time of the run, in milliseconds.
    pub elapsed_ms: u128,
}

/// The closing line of a run.
pub open spec fn summary_text(elapsed_ms: nat, successes: nat, failures: nat) -> Seq<char> {
    "Done ("@ + decimal(elapsed_ms) + " ms)! Successes: "@ + decimal(successes) + ", Fails: "@
        + decimal(failures)
}

impl RunResult {
    /// The closing line: elapsed time, successes and failures.
    pub fn summary(&self) -> (line: String)
        ensures
            line@ == summary_text(
                self.elapsed_ms as nat,
                self.successes as nat,
                self.failures as nat,
            ),
    {
        let mut line = String::from_str("Done (");
        line.append(decimal_text(self.elapsed_ms).as_str());
        line.append(" ms)! Successes: ");
        line.append(decimal_text(self.successes as u128).as_str());
        line.append(", Fails: ");
        line.append(decimal_text(self.failures as u128).as_str());
        line
    }
}

} // verus!
