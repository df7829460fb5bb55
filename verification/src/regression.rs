//! The regression policy: thresholds per event kind, and the verdicts that a
//! summary earns under them.

use crate::keyed::{
    kinds_of, lemma_keyed, lemma_unique_kinds, lemma_unseen, unique_kinds, unseen_kinds, value_of,
};
use crate::event_kind::EventKind;
use crate::ratio::{lemma_no_change, percentage_of, Limit, Ratio};
use crate::summary::{compared, compared_kinds, diff_of, CostsDiff, CostsSummary};
use vstd::prelude::*;

verus! {

/// A regression as a check reports it. It names the kind whose change
/// crossed its threshold and gives the two counts, the change in percent
/// and the threshold. The sign of the threshold tells which way it was
/// crossed: upwards for a threshold at or above zero, downwards for one
/// below.
#[derive(Debug, Clone, Copy, PartialEq, Eq, Structural)]
pub struct CallgrindRegressionSummary {
    /// The kind that regressed.
    pub event_kind: EventKind,
    /// The count of the new run.
    pub new: u64,
    /// The count of the old run.
    pub old: u64,
    /// The change in percent of the old count.
    pub diff_pct: Ratio,
    /// The threshold that the change crossed.
    pub limit: Limit,
}

/// The thresholds of a run, and what a crossed threshold means for the run.
#[derive(Debug, Clone)]
pub struct RegressionConfig {
    /// The kinds that are checked, each with its threshold in percent.
    pub limits: Vec<(EventKind, Limit)>,
    /// Whether the whole run is to stop at the first verdict. The check of
    /// one summary is the same either way: the flag is for the caller that
    /// runs the benchmarks.
    pub fail_fast: bool,
}

/// The change crosses the threshold: it is greater than a threshold at or
/// above zero, or less than a threshold below zero. A change that equals
/// the threshold does not cross it, and a threshold that stands for no
/// number is crossed by no change.
pub open spec fn crosses(change: Ratio, limit: Limit) -> bool {
    limit.wf() && if limit.is_negative_spec() {
        change.below(limit)
    } else {
        change.above(limit)
    }
}

/// The verdict on one kind: there is one where the summary holds the kind
/// with both counts and the change crosses the threshold.
pub open spec fn verdict_of(
    summary: Seq<(EventKind, CostsDiff)>,
    check: (EventKind, Limit),
) -> Option<CallgrindRegressionSummary> {
    match value_of(summary, check.0) {
        Some(diff) => match (diff.new, diff.old) {
            (Some(new), Some(old)) => if crosses(percentage_of(new, old), check.1) {
                Some(
                    CallgrindRegressionSummary {
                        event_kind: check.0,
                        new,
                        old,
                        diff_pct: percentage_of(new, old),
                        limit: check.1,
                    },
                )
            } else {
                None
            },
            _ => None,
        },
        None => None,
    }
}

/// The verdicts on a summary: one for each threshold that is crossed, in
/// the order of the thresholds.
pub open spec fn verdicts_of(
    limits: Seq<(EventKind, Limit)>,
    summary: Seq<(EventKind, CostsDiff)>,
) -> Seq<CallgrindRegressionSummary> {
    limits.filter_map(|check: (EventKind, Limit)| verdict_of(summary, check))
}

impl Default for RegressionConfig {
    /// The policy of a run that configures none: instructions may grow by
    /// ten percent, and the run goes on after a verdict.
    fn default() -> (config: RegressionConfig)
        ensures
            config.limits@ == seq![(EventKind::Ir, Limit { num: 10, den: 1 })],
            !config.fail_fast,
    {
        let mut limits: Vec<(EventKind, Limit)> = Vec::new();
        limits.push((EventKind::Ir, Limit::percent(10)));
        assert(limits@ =~= seq![(EventKind::Ir, Limit { num: 10, den: 1 })]);
        RegressionConfig { limits, fail_fast: false }
    }
}

impl RegressionConfig {
    /// The policy that a benchmark's configuration asks for: its thresholds,
    /// or the default threshold on instructions where it names none, and
    /// its word on how the run ends, or to go on where it says nothing.
    pub fn from(value: crate::api::RegressionConfig) -> (config: RegressionConfig)
        ensures
            config.limits@ == if value.0.limits@.len() == 0 {
                seq![(EventKind::Ir, Limit { num: 10, den: 1 })]
            } else {
                value.0.limits@
            },
            config.fail_fast == match value.0.fail_fast {
                Some(fail_fast) => fail_fast,
                None => false,
            },
    {
        let crate::api::InternalRegressionConfig { limits, fail_fast } = value.into_inner();
        let fail_fast = match fail_fast {
            Some(fail_fast) => fail_fast,
            None => false,
        };
        if limits.len() == 0 {
            RegressionConfig { limits: RegressionConfig::default().limits, fail_fast }
        } else {
            RegressionConfig { limits, fail_fast }
        }
    }

    /// Checks a summary against every threshold. Each kind is judged by
    /// itself, and all verdicts are returned, in the order of the
    /// thresholds. A kind that the summary does not hold, or holds without
    /// both counts, is passed over, and so is a threshold that stands for no
    /// number.
    pub fn check(&self, costs_summary: &CostsSummary) -> (regressions: Vec<
        CallgrindRegressionSummary,
    >)
        requires
            costs_summary.wf(),
        ensures
            regressions@ == verdicts_of(self.limits@, costs_summary@),
            forall|i: int| 0 <= i < regressions@.len() ==> (#[trigger] regressions@[i]).limit.wf(),
    {
        let mut regressions: Vec<CallgrindRegressionSummary> = Vec::new();
        let ghost judge = |check: (EventKind, Limit)| verdict_of(costs_summary@, check);
        let mut i: usize = 0;
        while i < self.limits.len()
            invariant
                i <= self.limits.len(),
                costs_summary.wf(),
                judge == |check: (EventKind, Limit)| verdict_of(costs_summary@, check),
                regressions@ == self.limits@.take(i as int).filter_map(judge),
                forall|j: int|
                    0 <= j < regressions@.len() ==> (#[trigger] regressions@[j]).limit.wf(),
            decreases self.limits.len() - i,
        {
            let (event_kind, limit) = self.limits[i];
            proof {
                let upto = self.limits@.take(i + 1);
                assert(upto.drop_last() =~= self.limits@.take(i as int));
                assert(upto.last() == (event_kind, limit));
            }
            match costs_summary.diff_by_kind(&event_kind) {
                Some(diff) => match (diff.new, diff.old) {
                    (Some(new), Some(old)) => {
                        let pct = crate::ratio::percentage(new, old);
                        let crossed = limit.is_number() && if limit.is_negative() {
                            pct.is_below(&limit)
                        } else {
                            pct.is_above(&limit)
                        };
                        if crossed {
                            regressions.push(
                                CallgrindRegressionSummary {
                                    event_kind,
                                    new,
                                    old,
                                    diff_pct: pct,
                                    limit,
                                },
                            );
                        }
                    },
                    _ => {},
                },
                None => {},
            }
            assert(regressions@ =~= self.limits@.take(i + 1).filter_map(judge));
            i += 1;
        }
        assert(self.limits@.take(self.limits.len() as int) =~= self.limits@);
        regressions
    }
}

/// A run compared with itself earns no verdict under thresholds at or above
/// zero, whatever they are.
pub proof fn lemma_unchanged_run_passes(
    limits: Seq<(EventKind, Limit)>,
    entries: Seq<(EventKind, u64)>,
)
    requires
        unique_kinds(entries),
        forall|i: int| 0 <= i < limits.len() ==> !(#[trigger] limits[i]).1.is_negative_spec(),
    ensures
        verdicts_of(limits, compared(Some(entries), Some(entries))) == Seq::<
            CallgrindRegressionSummary,
        >::empty(),
    decreases limits.len(),
{
    let summary = compared(Some(entries), Some(entries));
    let judge = |check: (EventKind, Limit)| verdict_of(summary, check);
    if limits.len() > 0 {
        let check = limits.last();
        lemma_unchanged_run_passes(limits.drop_last(), entries);
        let kinds = compared_kinds(Some(entries), Some(entries));
        lemma_unique_kinds(entries);
        lemma_unseen(kinds_of(entries), kinds_of(entries));
        let rest = unseen_kinds(kinds_of(entries), kinds_of(entries));
        if rest.len() > 0 {
            assert(rest.contains(rest[0]));
        }
        assert(kinds =~= kinds_of(entries));
        lemma_keyed(kinds, |kind: EventKind| diff_of(kind, Some(entries), Some(entries)));
        match value_of(summary, check.0) {
            Some(diff) => {
                if diff.new is Some {
                    lemma_no_change(diff.new->0, check.1);
                }
            },
            None => {},
        }
        assert(judge(check).is_none());
        assert(limits.filter_map(judge) == limits.drop_last().filter_map(judge));
    }
}

} // verus!
