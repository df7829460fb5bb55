//! A run in several segments, one per thread or subprocess for instance,
//! compared with a baseline run segment by segment.
//!
//! Segments are paired by position: segment `i` of the new run with segment
//! `i` of the old run. Nothing here checks that the two stand for the same
//! thread or process; a profiler that orders them differently from run to
//! run gets diffs of unrelated segments.

use crate::costs::Costs;
use crate::keyed::{kind_index, lemma_lookup_at, unique_kinds, value_of};
use crate::error::Error;
use crate::event_kind::EventKind;
use crate::summary::{
    all_fit, compared, diff_view, lemma_compared, lemma_merged, lemma_new_only, lemma_old_only,
    lemma_tallies, merged, sum_tallies, tallies, CostsDiff, CostsSummary, EitherOrBoth, Tally,
};
use itertools::Itertools;
use vstd::prelude::*;
use vstd::seq_lib::{commutative_foldl, lemma_fold_left_permutation};

verus! {

/// The comparison of one segment: where its costs came from, on each side
/// that has the segment, and the diffs.
#[derive(Debug)]
pub struct Summary {
    /// The origin of the segment's costs in the new run, in the old run, or
    /// in both.
    pub details: EitherOrBoth<String>,
    /// The diffs of the segment.
    pub costs_summary: CostsSummary,
}

/// The comparison of a whole run: one summary per segment, in the order of
/// the segments, and the total over all of them.
#[derive(Debug)]
pub struct Summaries {
    /// The summaries of the segments.
    pub data: Vec<Summary>,
    /// The sum of the summaries of all segments.
    pub total: CostsSummary,
}

/// Two sequences paired by position. Where one is longer, its surplus
/// stands alone.
pub open spec fn paired<T>(new: Seq<T>, old: Seq<T>) -> Seq<EitherOrBoth<T>> {
    Seq::new(
        if new.len() >= old.len() {
            new.len()
        } else {
            old.len()
        },
        |i: int|
            if i < new.len() && i < old.len() {
                EitherOrBoth::Both((new[i], old[i]))
            } else if i < new.len() {
                EitherOrBoth::Left(new[i])
            } else {
                EitherOrBoth::Right(old[i])
            },
    )
}

/// `Itertools::zip_longest` on the items of two vectors: pairs as long as
/// both have an item, then the rest of the longer one, item by item, as
/// `Left` where it is the first vector and as `Right` where it is the second.
#[verifier::external_body]
fn zip_longest<T>(new: Vec<T>, old: Vec<T>) -> (pairs: Vec<EitherOrBoth<T>>)
    ensures
        pairs@ == paired(new@, old@),
{
    new.into_iter()
        .zip_longest(old)
        .map(
            |pair|
                match pair {
                    itertools::EitherOrBoth::Both(n, o) => EitherOrBoth::Both((n, o)),
                    itertools::EitherOrBoth::Left(n) => EitherOrBoth::Left(n),
                    itertools::EitherOrBoth::Right(o) => EitherOrBoth::Right(o),
                },
        )
        .collect()
}

/// The cost vectors of the segment are valid.
pub open spec fn segment_wf(segment: EitherOrBoth<(String, Costs)>) -> bool {
    match segment {
        EitherOrBoth::Left((_, new)) => new.wf(),
        EitherOrBoth::Right((_, old)) => old.wf(),
        EitherOrBoth::Both(((_, new), (_, old))) => new.wf() && old.wf(),
    }
}

/// The diffs of a segment: its new costs compared with its old costs, or
/// the side that there is.
pub open spec fn segment_diffs(segment: EitherOrBoth<(String, Costs)>) -> Seq<
    (EventKind, CostsDiff),
> {
    match segment {
        EitherOrBoth::Left((_, new)) => compared(Some(new@), None),
        EitherOrBoth::Right((_, old)) => compared(None, Some(old@)),
        EitherOrBoth::Both(((_, new), (_, old))) => compared(Some(new@), Some(old@)),
    }
}

/// Where the costs of a segment came from.
pub open spec fn segment_details(segment: EitherOrBoth<(String, Costs)>) -> EitherOrBoth<String> {
    match segment {
        EitherOrBoth::Left((origin, _)) => EitherOrBoth::Left(origin),
        EitherOrBoth::Right((origin, _)) => EitherOrBoth::Right(origin),
        EitherOrBoth::Both(((new, _), (old, _))) => EitherOrBoth::Both((new, old)),
    }
}

/// The sum of summaries, taken from the first on.
pub open spec fn accumulated(summaries: Seq<Seq<(EventKind, Tally)>>) -> Seq<(EventKind, Tally)>
    decreases summaries.len(),
{
    if summaries.len() == 0 {
        Seq::empty()
    } else {
        merged(accumulated(summaries.drop_last()), summaries.last())
    }
}

/// The diffs of every segment, as tallies.
pub open spec fn segment_tallies(segments: Seq<EitherOrBoth<(String, Costs)>>) -> Seq<
    Seq<(EventKind, Tally)>,
> {
    segments.map_values(|segment: EitherOrBoth<(String, Costs)>| tallies(segment_diffs(segment)))
}

/// The segments of a run and of its baseline, paired by position. A run
/// without a baseline has none to pair with.
pub open spec fn segments_of(
    new: Seq<(String, Costs)>,
    old: Option<Vec<(String, Costs)>>,
) -> Seq<EitherOrBoth<(String, Costs)>> {
    match old {
        Some(o) => paired(new, o@),
        None => paired(new, Seq::empty()),
    }
}

/// One optional count is there, and at least as great, wherever the other is.
pub open spec fn count_within(small: Option<nat>, big: Option<nat>) -> bool {
    small matches Some(s) ==> big matches Some(b) && s <= b
}

/// One optional tally is there, with both sides at least as great, wherever
/// the other is.
pub open spec fn tally_within(small: Option<Tally>, big: Option<Tally>) -> bool {
    small matches Some(s) ==> big matches Some(b) && count_within(s.new, b.new) && count_within(
        s.old,
        b.old,
    )
}

/// Every kind of `small` is in `big`, with counts at least as great.
pub open spec fn within(small: Seq<(EventKind, Tally)>, big: Seq<(EventKind, Tally)>) -> bool {
    forall|kind: EventKind| tally_within(#[trigger] value_of(small, kind), value_of(big, kind))
}

/// What is within a summary that fits in 64 bits fits too.
proof fn lemma_within_fits(small: Seq<(EventKind, Tally)>, big: Seq<(EventKind, Tally)>)
    requires
        unique_kinds(small),
        unique_kinds(big),
        within(small, big),
        all_fit(big),
    ensures
        all_fit(small),
{
    assert forall|i: int| 0 <= i < small.len() implies (#[trigger] small[i]).1.fits() by {
        let kind = small[i].0;
        lemma_lookup_at(small, i);
        assert(tally_within(value_of(small, kind), value_of(big, kind)));
        let at = kind_index(big, kind);
        assert(big[at].1.fits());
    }
}

/// The sum up to a segment is within the sum over all segments, and no kind
/// is repeated in either.
proof fn lemma_accumulated_within(summaries: Seq<Seq<(EventKind, Tally)>>, n: int)
    requires
        0 <= n <= summaries.len(),
        forall|i: int| 0 <= i < summaries.len() ==> unique_kinds(#[trigger] summaries[i]),
    ensures
        unique_kinds(accumulated(summaries)),
        unique_kinds(accumulated(summaries.take(n))),
        within(accumulated(summaries.take(n)), accumulated(summaries)),
    decreases summaries.len(),
{
    if summaries.len() == 0 {
        assert(summaries.take(n) =~= summaries);
    } else {
        let shorter = summaries.drop_last();
        lemma_accumulated_within(shorter, shorter.len() as int);
        lemma_merged(accumulated(shorter), summaries.last());
        if n == summaries.len() {
            assert(summaries.take(n) =~= summaries);
        } else {
            lemma_accumulated_within(shorter, n);
            assert(shorter.take(n) =~= summaries.take(n));
            let part = accumulated(summaries.take(n));
            assert forall|kind: EventKind|
                tally_within(
                    #[trigger] value_of(part, kind),
                    value_of(accumulated(summaries), kind),
                ) by {
                assert(tally_within(value_of(part, kind), value_of(accumulated(shorter), kind)));
                assert(value_of(accumulated(summaries), kind) == sum_tallies(
                    value_of(accumulated(shorter), kind),
                    value_of(summaries.last(), kind),
                ));
            }
        }
    }
}

impl Summary {
    /// The summary of a segment.
    pub fn new(details: EitherOrBoth<String>, costs_summary: CostsSummary) -> (summary: Summary)
        ensures
            summary.details == details,
            summary.costs_summary == costs_summary,
    {
        Summary { details, costs_summary }
    }
}

impl Summaries {
    /// These are the summaries of `segments`: one per segment and in their
    /// order, each with the origin and the diffs of its segment, and the
    /// total is the sum of all of them, taken in that order.
    pub open spec fn compares(&self, segments: Seq<EitherOrBoth<(String, Costs)>>) -> bool {
        &&& self.data@.len() == segments.len()
        &&& forall|i: int|
            0 <= i < segments.len() ==> {
                &&& (#[trigger] self.data@[i]).details == segment_details(segments[i])
                &&& self.data@[i].costs_summary@ == segment_diffs(segments[i])
                &&& self.data@[i].costs_summary.wf()
            }
        &&& self.total.wf()
        &&& tallies(self.total@) == accumulated(segment_tallies(segments))
    }

    /// Compares the segments of a new run with those of a baseline run, if
    /// there is one. Segment `i` of the new run is compared with segment `i`
    /// of the baseline; the surplus of the longer run stands alone, as
    /// one-sided summaries. The summaries come in the order of the
    /// segments, and the total is their sum, taken in that order.
    ///
    /// There is at least one segment: a run without any is no run.
    pub fn new(parsed_new: Vec<(String, Costs)>, parsed_old: Option<Vec<(String, Costs)>>) -> (summaries:
        Summaries)
        requires
            segments_of(parsed_new@, parsed_old).len() > 0,
            forall|i: int|
                0 <= i < segments_of(parsed_new@, parsed_old).len() ==> segment_wf(
                    #[trigger] segments_of(parsed_new@, parsed_old)[i],
                ),
            all_fit(accumulated(segment_tallies(segments_of(parsed_new@, parsed_old)))),
        ensures
            summaries.compares(segments_of(parsed_new@, parsed_old)),
    {
        let ghost segments = segments_of(parsed_new@, parsed_old);
        let ghost parts = segment_tallies(segments);
        let old = match parsed_old {
            Some(old) => old,
            None => Vec::new(),
        };
        let pairs = zip_longest(parsed_new, old);
        assert(pairs@ == segments);
        let mut total = CostsSummary::default();
        let mut data: Vec<Summary> = Vec::new();
        let mut i: usize = 0;
        assert(tallies(total@) =~= accumulated(parts.take(0)));
        while i < pairs.len()
            invariant
                i <= pairs.len(),
                pairs@ == segments,
                parts == segment_tallies(segments),
                forall|j: int| 0 <= j < segments.len() ==> segment_wf(#[trigger] segments[j]),
                all_fit(accumulated(parts)),
                total.wf(),
                tallies(total@) == accumulated(parts.take(i as int)),
                data@.len() == i,
                forall|j: int|
                    0 <= j < i ==> {
                        &&& (#[trigger] data@[j]).details == segment_details(segments[j])
                        &&& data@[j].costs_summary@ == segment_diffs(segments[j])
                        &&& data@[j].costs_summary.wf()
                    },
            decreases pairs.len() - i,
        {
            assert(segment_wf(segments[i as int]));
            let (details, summary) = match &pairs[i] {
                EitherOrBoth::Both(((new_origin, new_costs), (old_origin, old_costs))) => (
                    EitherOrBoth::Both((new_origin.clone(), old_origin.clone())),
                    CostsSummary::from_sides(Some(new_costs), Some(old_costs)),
                ),
                EitherOrBoth::Left((origin, new_costs)) => (
                    EitherOrBoth::Left(origin.clone()),
                    CostsSummary::from_sides(Some(new_costs), None),
                ),
                EitherOrBoth::Right((origin, old_costs)) => (
                    EitherOrBoth::Right(origin.clone()),
                    CostsSummary::from_sides(None, Some(old_costs)),
                ),
            };
            proof {
                let upto = parts.take(i + 1);
                assert(upto.drop_last() =~= parts.take(i as int));
                assert(upto.last() == tallies(summary@));
                assert forall|j: int| 0 <= j < parts.len() implies unique_kinds(
                    #[trigger] parts[j],
                ) by {
                    lemma_segment_unique(segments[j]);
                }
                lemma_accumulated_within(parts, i + 1);
                lemma_within_fits(accumulated(upto), accumulated(parts));
            }
            total.add(&summary);
            data.push(Summary::new(details, summary));
            i += 1;
        }
        assert(parts.take(pairs.len() as int) =~= parts);
        Summaries { data, total }
    }

    /// Whether the segments can be compared within 64 bits: for no kind the
    /// counts of a run, added up over its segments, leave 64 bits. This is
    /// what `new` and `try_new` ask of their caller.
    pub fn can_compare(
        parsed_new: &Vec<(String, Costs)>,
        parsed_old: &Option<Vec<(String, Costs)>>,
    ) -> (ok: bool)
        requires
            forall|i: int|
                0 <= i < segments_of(parsed_new@, *parsed_old).len() ==> segment_wf(
                    #[trigger] segments_of(parsed_new@, *parsed_old)[i],
                ),
        ensures
            ok == all_fit(accumulated(segment_tallies(segments_of(parsed_new@, *parsed_old)))),
    {
        let ghost segments = segments_of(parsed_new@, *parsed_old);
        let ghost parts = segment_tallies(segments);
        let new_len = parsed_new.len();
        let old_len = match parsed_old {
            Some(old) => old.len(),
            None => 0,
        };
        let len = if new_len >= old_len {
            new_len
        } else {
            old_len
        };
        let mut total = CostsSummary::default();
        let mut i: usize = 0;
        proof {
            assert(tallies(total@) =~= accumulated(parts.take(0)));
            assert forall|j: int| 0 <= j < parts.len() implies unique_kinds(
                #[trigger] parts[j],
            ) by {
                lemma_segment_unique(segments[j]);
            }
        }
        while i < len
            invariant
                i <= len,
                len == segments.len(),
                new_len == parsed_new@.len(),
                parsed_old matches Some(old) ==> old_len == old@.len(),
                parsed_old.is_none() ==> old_len == 0,
                segments == segments_of(parsed_new@, *parsed_old),
                parts == segment_tallies(segments),
                forall|j: int| 0 <= j < segments.len() ==> segment_wf(#[trigger] segments[j]),
                forall|j: int| 0 <= j < parts.len() ==> unique_kinds(#[trigger] parts[j]),
                total.wf(),
                tallies(total@) == accumulated(parts.take(i as int)),
                all_fit(accumulated(parts.take(i as int))),
            decreases len - i,
        {
            assert(segment_wf(segments[i as int]));
            let new_costs = if i < new_len {
                Some(&parsed_new[i].1)
            } else {
                None
            };
            let old_costs = match parsed_old {
                Some(old) => if i < old_len {
                    Some(&old[i].1)
                } else {
                    None
                },
                None => None,
            };
            let summary = CostsSummary::from_sides(new_costs, old_costs);
            proof {
                let upto = parts.take(i + 1);
                assert(upto.drop_last() =~= parts.take(i as int));
                assert(summary@ == segment_diffs(segments[i as int]));
                assert(upto.last() == tallies(summary@));
            }
            if !total.can_add(&summary) {
                proof {
                    lemma_accumulated_within(parts, i + 1);
                    if all_fit(accumulated(parts)) {
                        lemma_within_fits(accumulated(parts.take(i + 1)), accumulated(parts));
                    }
                }
                return false;
            }
            total.add(&summary);
            i += 1;
        }
        assert(parts.take(len as int) =~= parts);
        true
    }

    /// Compares the segments of a new run with those of a baseline run, or
    /// reports that there is no segment to compare.
    pub fn try_new(
        parsed_new: Vec<(String, Costs)>,
        parsed_old: Option<Vec<(String, Costs)>>,
    ) -> (summaries: Result<Summaries, Error>)
        requires
            forall|i: int|
                0 <= i < segments_of(parsed_new@, parsed_old).len() ==> segment_wf(
                    #[trigger] segments_of(parsed_new@, parsed_old)[i],
                ),
            all_fit(accumulated(segment_tallies(segments_of(parsed_new@, parsed_old)))),
        ensures
            match summaries {
                Ok(s) => segments_of(parsed_new@, parsed_old).len() > 0 && s.compares(
                    segments_of(parsed_new@, parsed_old),
                ),
                Err(e) => segments_of(parsed_new@, parsed_old).len() == 0 && e
                    == Error::EmptySegmentSet,
            },
    {
        let old_len = match &parsed_old {
            Some(old) => old.len(),
            None => 0,
        };
        if parsed_new.len() == 0 && old_len == 0 {
            Err(Error::EmptySegmentSet)
        } else {
            Ok(Summaries::new(parsed_new, parsed_old))
        }
    }

    /// Whether the run has more than one segment.
    pub fn has_multiple(&self) -> (multiple: bool)
        ensures
            multiple == (self.data@.len() > 1),
    {
        self.data.len() > 1
    }
}

/// What the segments hold together of `kind`: the sum of what each of them
/// holds of it, new counts and old counts apart. A segment that lacks the
/// kind adds nothing, and the sum is absent where every segment lacks it.
pub open spec fn kind_total(parts: Seq<Seq<(EventKind, Tally)>>, kind: EventKind) -> Option<Tally> {
    parts.fold_left(
        None::<Tally>,
        |sum: Option<Tally>, part: Seq<(EventKind, Tally)>| sum_tallies(sum, value_of(part, kind)),
    )
}

/// The number of segments of the baseline, if there is one.
pub open spec fn baseline_len(old: Option<Vec<(String, Costs)>>) -> nat {
    match old {
        Some(o) => o@.len(),
        None => 0,
    }
}

/// The total over summaries holds for every kind the sum of what the
/// summaries hold of it.
pub proof fn lemma_accumulated_is_sum(parts: Seq<Seq<(EventKind, Tally)>>, kind: EventKind)
    requires
        forall|i: int| 0 <= i < parts.len() ==> unique_kinds(#[trigger] parts[i]),
    ensures
        value_of(accumulated(parts), kind) == kind_total(parts, kind),
    decreases parts.len(),
{
    if parts.len() > 0 {
        let shorter = parts.drop_last();
        lemma_accumulated_is_sum(shorter, kind);
        lemma_accumulated_within(shorter, shorter.len() as int);
        lemma_merged(accumulated(shorter), parts.last());
    }
}

/// The total of a comparison holds for every kind the sum of the new
/// counts of the segments that have the kind on the new side, and the sum
/// of the old counts of those that have it on the old side.
pub proof fn lemma_total_is_sum(
    summaries: Summaries,
    segments: Seq<EitherOrBoth<(String, Costs)>>,
    kind: EventKind,
)
    requires
        forall|i: int| 0 <= i < segments.len() ==> segment_wf(#[trigger] segments[i]),
        summaries.compares(segments),
    ensures
        diff_view(value_of(summaries.total@, kind)) == kind_total(segment_tallies(segments), kind),
{
    let parts = segment_tallies(segments);
    assert forall|i: int| 0 <= i < parts.len() implies unique_kinds(#[trigger] parts[i]) by {
        lemma_segment_unique(segments[i]);
    }
    lemma_accumulated_is_sum(parts, kind);
    lemma_tallies(summaries.total@);
}

/// The total does not depend on the order of the segments: two comparisons
/// whose segments hold the same diffs, in whatever order, have the same new
/// count and the same old count for every kind in their totals. Only the
/// order of the kinds may differ.
pub proof fn lemma_total_in_any_order(
    one: Summaries,
    other: Summaries,
    segments: Seq<EitherOrBoth<(String, Costs)>>,
    reordered: Seq<EitherOrBoth<(String, Costs)>>,
    kind: EventKind,
)
    requires
        forall|i: int| 0 <= i < segments.len() ==> segment_wf(#[trigger] segments[i]),
        forall|i: int| 0 <= i < reordered.len() ==> segment_wf(#[trigger] reordered[i]),
        segment_tallies(segments).to_multiset() == segment_tallies(reordered).to_multiset(),
        one.compares(segments),
        other.compares(reordered),
    ensures
        value_of(one.total@, kind) == value_of(other.total@, kind),
{
    let add = |sum: Option<Tally>, part: Seq<(EventKind, Tally)>|
        sum_tallies(sum, value_of(part, kind));
    assert(commutative_foldl(add));
    lemma_fold_left_permutation(
        segment_tallies(segments),
        segment_tallies(reordered),
        add,
        None::<Tally>,
    );
    lemma_total_is_sum(one, segments, kind);
    lemma_total_is_sum(other, reordered, kind);
}

/// Segments are compared by position, and the surplus of the longer run
/// stands alone. Summary `i` is two-sided where both runs have a segment
/// `i`. Past the end of the baseline it is of the new segment alone: each of
/// its diffs has a new count and no old count, percentage or factor. Past
/// the end of the new run it is of the old segment alone, the other way
/// round.
pub proof fn lemma_summary_of_segment(
    summaries: Summaries,
    new: Seq<(String, Costs)>,
    old: Option<Vec<(String, Costs)>>,
    i: int,
)
    requires
        forall|j: int|
            0 <= j < segments_of(new, old).len() ==> segment_wf(#[trigger] segments_of(new, old)[j]),
        summaries.compares(segments_of(new, old)),
        0 <= i < summaries.data@.len(),
    ensures
        summaries.data@.len() == if new.len() >= baseline_len(old) {
            new.len()
        } else {
            baseline_len(old)
        },
        i < new.len() && i < baseline_len(old) ==> {
            &&& summaries.data@[i].details == EitherOrBoth::Both((new[i].0, old->0@[i].0))
            &&& summaries.data@[i].costs_summary@ == compared(
                Some(new[i].1@),
                Some(old->0@[i].1@),
            )
        },
        baseline_len(old) <= i ==> {
            &&& summaries.data@[i].details == EitherOrBoth::Left(new[i].0)
            &&& summaries.data@[i].costs_summary@ == compared(Some(new[i].1@), None)
            &&& forall|j: int|
                0 <= j < summaries.data@[i].costs_summary@.len() ==> {
                    let diff = (#[trigger] summaries.data@[i].costs_summary@[j]).1;
                    &&& diff.new == Some(new[i].1@[j].1)
                    &&& diff.old.is_none()
                    &&& diff.diff_pct_spec().is_none()
                    &&& diff.factor_spec().is_none()
                }
        },
        new.len() <= i ==> {
            &&& summaries.data@[i].details == EitherOrBoth::Right(old->0@[i].0)
            &&& summaries.data@[i].costs_summary@ == compared(None, Some(old->0@[i].1@))
            &&& forall|j: int|
                0 <= j < summaries.data@[i].costs_summary@.len() ==> {
                    let diff = (#[trigger] summaries.data@[i].costs_summary@[j]).1;
                    &&& diff.new.is_none()
                    &&& diff.old == Some(old->0@[i].1@[j].1)
                    &&& diff.diff_pct_spec().is_none()
                    &&& diff.factor_spec().is_none()
                }
        },
{
    let segments = segments_of(new, old);
    assert(segment_wf(segments[i]));
    if baseline_len(old) <= i {
        new[i].1.lemma_unique_kinds();
        lemma_new_only(new[i].1@);
    }
    if new.len() <= i {
        old->0@[i].1.lemma_unique_kinds();
        lemma_old_only(old->0@[i].1@);
    }
}

/// No kind is repeated in the diffs of a segment with valid cost vectors.
proof fn lemma_segment_unique(segment: EitherOrBoth<(String, Costs)>)
    requires
        segment_wf(segment),
    ensures
        unique_kinds(segment_diffs(segment)),
        unique_kinds(tallies(segment_diffs(segment))),
{
    match segment {
        EitherOrBoth::Left((_, new)) => {
            new.lemma_unique_kinds();
            lemma_compared(Some(new@), None);
        },
        EitherOrBoth::Right((_, old)) => {
            old.lemma_unique_kinds();
            lemma_compared(None, Some(old@));
        },
        EitherOrBoth::Both(((_, new), (_, old))) => {
            new.lemma_unique_kinds();
            old.lemma_unique_kinds();
            lemma_compared(Some(new@), Some(old@));
        },
    }
    lemma_tallies(segment_diffs(segment));
}

} // verus!
