//! The comparison of a new measurement with a baseline: one diff per event
//! kind, and the summary that holds the diffs of all kinds of either side.

use crate::costs::{cost_of, Costs};
use crate::keyed::{
    has_kind, keyed, kind_index, kinds_of, lemma_keyed, lemma_kinds_contain, lemma_lookup_at,
    lemma_union_kinds, lemma_unique_kinds, lemma_unseen, union_kinds, unique_kinds,
    unseen_kinds, value_of,
};
use crate::event_kind::EventKind;
use crate::ratio::{factor, factor_of, lemma_no_change, percentage, percentage_of, Limit, Ratio};
use vstd::prelude::*;

verus! {

/// A value of the new run, of the old run, or of both.
#[derive(Debug, PartialEq, Eq)]
pub enum EitherOrBoth<T> {
    /// Of the new run only.
    Left(T),
    /// Of the old run only.
    Right(T),
    /// Of the new run and of the old run, in this order.
    Both((T, T)),
}

/// What two runs counted of one event kind. A side is absent where its run
/// did not count the kind, which is not the same as a count of zero.
#[derive(Debug, Clone, Copy, PartialEq, Eq, Structural)]
pub struct CostsDiff {
    /// The count of the new run.
    pub new: Option<u64>,
    /// The count of the old run.
    pub old: Option<u64>,
}

/// The counts of one kind as numbers without a bound: what sums of diffs are
/// stated over.
pub struct Tally {
    /// The count on the side of the new run.
    pub new: Option<nat>,
    /// The count on the side of the old run.
    pub old: Option<nat>,
}

/// The sum of two optional counts: a side that is absent adds nothing, and
/// the sum is absent only where both are.
pub open spec fn sum_counts(a: Option<nat>, b: Option<nat>) -> Option<nat> {
    match (a, b) {
        (Some(x), Some(y)) => Some(x + y),
        (Some(x), None) => Some(x),
        (None, Some(y)) => Some(y),
        (None, None) => None,
    }
}

impl Tally {
    /// The sum of two tallies: the new sides and the old sides are summed
    /// independently.
    pub open spec fn plus(self, other: Tally) -> Tally {
        Tally { new: sum_counts(self.new, other.new), old: sum_counts(self.old, other.old) }
    }

    /// Both sides fit in 64 bits.
    pub open spec fn fits(self) -> bool {
        &&& self.new matches Some(n) ==> n <= u64::MAX
        &&& self.old matches Some(o) ==> o <= u64::MAX
    }
}

/// The sum of two optional tallies, absent only where both are.
pub open spec fn sum_tallies(a: Option<Tally>, b: Option<Tally>) -> Option<Tally> {
    match (a, b) {
        (Some(x), Some(y)) => Some(x.plus(y)),
        (Some(x), None) => Some(x),
        (None, Some(y)) => Some(y),
        (None, None) => None,
    }
}

/// A count as a number without a bound.
pub open spec fn count_view(count: Option<u64>) -> Option<nat> {
    match count {
        Some(c) => Some(c as nat),
        None => None,
    }
}

impl View for CostsDiff {
    type V = Tally;

    open spec fn view(&self) -> Tally {
        Tally { new: count_view(self.new), old: count_view(self.old) }
    }
}

/// The entries of a cost vector that is borrowed and may be absent.
pub open spec fn entries_of(costs: Option<&Costs>) -> Option<Seq<(EventKind, u64)>> {
    match costs {
        Some(c) => Some(c@),
        None => None,
    }
}

/// The entries of a cost vector that is owned and may be absent.
pub open spec fn owned_entries(costs: Option<Costs>) -> Option<Seq<(EventKind, u64)>> {
    match costs {
        Some(c) => Some(c@),
        None => None,
    }
}

/// The cost of `kind` in a vector that may be absent.
pub open spec fn side_cost(entries: Option<Seq<(EventKind, u64)>>, kind: EventKind) -> Option<u64> {
    match entries {
        Some(e) => cost_of(e, kind),
        None => None,
    }
}

/// The diff of `kind` between two vectors, each of which may be absent: on
/// each side the cost that the vector holds for the kind.
pub open spec fn diff_of(
    kind: EventKind,
    new: Option<Seq<(EventKind, u64)>>,
    old: Option<Seq<(EventKind, u64)>>,
) -> CostsDiff {
    CostsDiff { new: side_cost(new, kind), old: side_cost(old, kind) }
}

impl CostsDiff {
    /// The diff of `kind` between a new and an old cost vector, each of
    /// which may be absent.
    pub fn new(kind: &EventKind, new: Option<&Costs>, old: Option<&Costs>) -> (diff: CostsDiff)
        requires
            new matches Some(c) ==> c.wf(),
            old matches Some(c) ==> c.wf(),
        ensures
            diff == diff_of(*kind, entries_of(new), entries_of(old)),
    {
        let new_cost = match new {
            Some(costs) => costs.cost_by_kind(kind),
            None => None,
        };
        let old_cost = match old {
            Some(costs) => costs.cost_by_kind(kind),
            None => None,
        };
        CostsDiff { new: new_cost, old: old_cost }
    }

    /// The change in percent of the old count. Absent unless both sides are
    /// there: without a baseline there is nothing to compare with, which is
    /// not the same as no change.
    pub open spec fn diff_pct_spec(&self) -> Option<Ratio> {
        match (self.new, self.old) {
            (Some(new), Some(old)) => Some(percentage_of(new, old)),
            _ => None,
        }
    }

    /// The new count as a multiple of the old one. Absent unless both sides
    /// are there.
    pub open spec fn factor_spec(&self) -> Option<Ratio> {
        match (self.new, self.old) {
            (Some(new), Some(old)) => Some(factor_of(new, old)),
            _ => None,
        }
    }

    /// The change in percent of the old count, if both sides are there.
    #[verifier::when_used_as_spec(diff_pct_spec)]
    pub fn diff_pct(&self) -> (change: Option<Ratio>)
        ensures
            change == self.diff_pct_spec(),
    {
        match (self.new, self.old) {
            (Some(new), Some(old)) => Some(percentage(new, old)),
            _ => None,
        }
    }

    /// The new count as a multiple of the old one, if both sides are there.
    #[verifier::when_used_as_spec(factor_spec)]
    pub fn factor(&self) -> (multiple: Option<Ratio>)
        ensures
            multiple == self.factor_spec(),
    {
        match (self.new, self.old) {
            (Some(new), Some(old)) => Some(factor(new, old)),
            _ => None,
        }
    }

    /// Whether the sum of the two diffs fits in 64 bits on both sides: what
    /// `add` asks of its caller.
    pub fn can_add(&self, other: &CostsDiff) -> (ok: bool)
        ensures
            ok == self@.plus(other@).fits(),
    {
        let new_fits = match (self.new, other.new) {
            (Some(a), Some(b)) => a.checked_add(b).is_some(),
            _ => true,
        };
        let old_fits = match (self.old, other.old) {
            (Some(a), Some(b)) => a.checked_add(b).is_some(),
            _ => true,
        };
        new_fits && old_fits
    }

    /// The sum of two diffs of one kind: the new counts and the old counts
    /// are summed independently, and a side that only one diff has is taken
    /// from that diff. Percentage and factor of the sum follow from the
    /// summed counts.
    pub fn add(&self, other: &CostsDiff) -> (sum: CostsDiff)
        requires
            self@.plus(other@).fits(),
        ensures
            sum@ == self@.plus(other@),
    {
        let new = match (self.new, other.new) {
            (Some(a), Some(b)) => Some(a + b),
            (Some(a), None) => Some(a),
            (None, b) => b,
        };
        let old = match (self.old, other.old) {
            (Some(a), Some(b)) => Some(a + b),
            (Some(a), None) => Some(a),
            (None, b) => b,
        };
        CostsDiff { new, old }
    }
}

/// The side of the new run.
pub open spec fn new_side<T>(sides: EitherOrBoth<T>) -> Option<T> {
    match sides {
        EitherOrBoth::Left(new) => Some(new),
        EitherOrBoth::Right(_) => None,
        EitherOrBoth::Both((new, _)) => Some(new),
    }
}

/// The side of the old run.
pub open spec fn old_side<T>(sides: EitherOrBoth<T>) -> Option<T> {
    match sides {
        EitherOrBoth::Left(_) => None,
        EitherOrBoth::Right(old) => Some(old),
        EitherOrBoth::Both((_, old)) => Some(old),
    }
}

/// The kinds that a comparison speaks of: those of the new vector in their
/// order, then those that only the old vector holds, in its order.
pub open spec fn compared_kinds(
    new: Option<Seq<(EventKind, u64)>>,
    old: Option<Seq<(EventKind, u64)>>,
) -> Seq<EventKind> {
    match (new, old) {
        (Some(n), Some(o)) => union_kinds(kinds_of(n), kinds_of(o)),
        (Some(n), None) => kinds_of(n),
        (None, Some(o)) => kinds_of(o),
        (None, None) => Seq::empty(),
    }
}

/// The comparison of a new vector with an old one, each of which may be
/// absent: the diff of every kind that either of them holds.
pub open spec fn compared(
    new: Option<Seq<(EventKind, u64)>>,
    old: Option<Seq<(EventKind, u64)>>,
) -> Seq<(EventKind, CostsDiff)> {
    keyed(compared_kinds(new, old), |kind: EventKind| diff_of(kind, new, old))
}

/// A comparison holds the kinds of both vectors, none of them twice, each
/// with the costs that the two vectors have for it.
pub proof fn lemma_compared(
    new: Option<Seq<(EventKind, u64)>>,
    old: Option<Seq<(EventKind, u64)>>,
)
    requires
        new matches Some(n) ==> unique_kinds(n),
        old matches Some(o) ==> unique_kinds(o),
    ensures
        unique_kinds(compared(new, old)),
        forall|kind: EventKind| #[trigger]
            has_kind(compared(new, old), kind) <==> (side_cost(new, kind).is_some() || side_cost(
                old,
                kind,
            ).is_some()),
        forall|kind: EventKind|
            has_kind(compared(new, old), kind) ==> #[trigger] value_of(compared(new, old), kind)
                == Some(diff_of(kind, new, old)),
{
    let kinds = compared_kinds(new, old);
    let diff = |kind: EventKind| diff_of(kind, new, old);
    match (new, old) {
        (Some(n), Some(o)) => {
            lemma_unique_kinds(n);
            lemma_unique_kinds(o);
            lemma_union_kinds(kinds_of(n), kinds_of(o));
        },
        (Some(n), None) => {
            lemma_unique_kinds(n);
        },
        (None, Some(o)) => {
            lemma_unique_kinds(o);
        },
        (None, None) => {},
    }
    lemma_keyed(kinds, diff);
    assert forall|kind: EventKind| #[trigger]
        has_kind(compared(new, old), kind) <==> (side_cost(new, kind).is_some() || side_cost(
            old,
            kind,
        ).is_some()) by {
        if new is Some {
            lemma_kinds_contain(new->0, kind);
        }
        if old is Some {
            lemma_kinds_contain(old->0, kind);
        }
    }
}

/// The diffs as tallies, kind by kind.
pub open spec fn tallies(entries: Seq<(EventKind, CostsDiff)>) -> Seq<(EventKind, Tally)> {
    entries.map_values(|e: (EventKind, CostsDiff)| (e.0, e.1@))
}

/// What two summaries hold together of `kind`: the sum where both hold it,
/// else what the one that holds it has.
pub open spec fn total_at(
    a: Seq<(EventKind, Tally)>,
    b: Seq<(EventKind, Tally)>,
    kind: EventKind,
) -> Tally {
    match sum_tallies(value_of(a, kind), value_of(b, kind)) {
        Some(tally) => tally,
        None => Tally { new: None, old: None },
    }
}

/// Two summaries merged into one: the kinds of the first in their order,
/// then the kinds that only the second holds in its order, each with what
/// the two hold of it together.
pub open spec fn merged(a: Seq<(EventKind, Tally)>, b: Seq<(EventKind, Tally)>) -> Seq<
    (EventKind, Tally),
> {
    keyed(union_kinds(kinds_of(a), kinds_of(b)), |kind: EventKind| total_at(a, b, kind))
}

/// Every count fits in 64 bits.
pub open spec fn all_fit(entries: Seq<(EventKind, Tally)>) -> bool {
    forall|i: int| 0 <= i < entries.len() ==> (#[trigger] entries[i]).1.fits()
}

/// A diff that may be absent, as a tally.
pub open spec fn diff_view(diff: Option<CostsDiff>) -> Option<Tally> {
    match diff {
        Some(d) => Some(d@),
        None => None,
    }
}

/// Taking the diffs as tallies changes neither the kinds nor what a lookup
/// finds.
pub proof fn lemma_tallies(entries: Seq<(EventKind, CostsDiff)>)
    requires
        unique_kinds(entries),
    ensures
        unique_kinds(tallies(entries)),
        kinds_of(tallies(entries)) == kinds_of(entries),
        forall|kind: EventKind| #[trigger]
            has_kind(tallies(entries), kind) <==> has_kind(entries, kind),
        forall|kind: EventKind| #[trigger]
            value_of(tallies(entries), kind) == diff_view(value_of(entries, kind)),
{
    let lifted = tallies(entries);
    assert(kinds_of(lifted) =~= kinds_of(entries));
    lemma_unique_kinds(entries);
    lemma_unique_kinds(lifted);
    assert forall|kind: EventKind| #[trigger]
        has_kind(lifted, kind) <==> has_kind(entries, kind) by {
        lemma_kinds_contain(lifted, kind);
        lemma_kinds_contain(entries, kind);
    }
    assert forall|kind: EventKind| #[trigger]
        value_of(lifted, kind) == diff_view(value_of(entries, kind)) by {
        if has_kind(entries, kind) {
            let at = kind_index(entries, kind);
            assert(lifted[at].0 == kind);
            lemma_lookup_at(lifted, at);
        }
    }
}

/// What a lookup finds in two merged summaries: the sum of what it finds in
/// each. No kind is repeated in the result.
pub proof fn lemma_merged(a: Seq<(EventKind, Tally)>, b: Seq<(EventKind, Tally)>)
    requires
        unique_kinds(a),
        unique_kinds(b),
    ensures
        unique_kinds(merged(a, b)),
        forall|kind: EventKind| #[trigger]
            has_kind(merged(a, b), kind) <==> (has_kind(a, kind) || has_kind(b, kind)),
        forall|kind: EventKind| #[trigger]
            value_of(merged(a, b), kind) == sum_tallies(value_of(a, kind), value_of(b, kind)),
{
    let kinds = union_kinds(kinds_of(a), kinds_of(b));
    let total = |kind: EventKind| total_at(a, b, kind);
    lemma_unique_kinds(a);
    lemma_unique_kinds(b);
    lemma_union_kinds(kinds_of(a), kinds_of(b));
    lemma_keyed(kinds, total);
    assert forall|kind: EventKind| #[trigger]
        has_kind(merged(a, b), kind) <==> (has_kind(a, kind) || has_kind(b, kind)) by {
        lemma_kinds_contain(a, kind);
        lemma_kinds_contain(b, kind);
    }
    assert forall|kind: EventKind| #[trigger]
        value_of(merged(a, b), kind) == sum_tallies(value_of(a, kind), value_of(b, kind)) by {
        lemma_kinds_contain(a, kind);
        lemma_kinds_contain(b, kind);
        if kinds.contains(kind) {
            assert(value_of(merged(a, b), kind) == Some(total(kind)));
        } else {
            assert(!has_kind(merged(a, b), kind));
        }
    }
}

/// Two summaries can be merged within 64 bits exactly if the sums of the
/// kinds of the first can: what only the second holds is not summed.
pub proof fn lemma_merged_fits(a: Seq<(EventKind, CostsDiff)>, b: Seq<(EventKind, CostsDiff)>)
    requires
        unique_kinds(a),
        unique_kinds(b),
    ensures
        all_fit(merged(tallies(a), tallies(b))) <==> forall|i: int|
            0 <= i < a.len() ==> total_at(tallies(a), tallies(b), (#[trigger] a[i]).0).fits(),
{
    let ta = tallies(a);
    let tb = tallies(b);
    let first = kinds_of(ta);
    let second = kinds_of(tb);
    let all = merged(ta, tb);
    lemma_tallies(a);
    lemma_tallies(b);
    lemma_unique_kinds(ta);
    lemma_unique_kinds(tb);
    lemma_unseen(first, second);
    let rest = unseen_kinds(first, second);
    if all_fit(all) {
        assert forall|i: int| 0 <= i < a.len() implies total_at(ta, tb, (#[trigger] a[i]).0).fits() by {
            assert(union_kinds(first, second)[i] == first[i]);
            assert(all[i].1 == total_at(ta, tb, a[i].0));
        }
    }
    if forall|i: int| 0 <= i < a.len() ==> total_at(ta, tb, (#[trigger] a[i]).0).fits() {
        assert forall|i: int| 0 <= i < all.len() implies (#[trigger] all[i]).1.fits() by {
            if i < a.len() {
                assert(union_kinds(first, second)[i] == first[i]);
                assert(all[i].1 == total_at(ta, tb, a[i].0));
            } else {
                let kind = rest[i - a.len()];
                assert(union_kinds(first, second)[i] == kind);
                assert(rest.contains(kind));
                lemma_kinds_contain(ta, kind);
                lemma_kinds_contain(tb, kind);
                let at = kind_index(b, kind);
                assert(value_of(tb, kind) == Some(b[at].1@));
            }
        }
    }
}

/// Accumulation does not depend on the order of its two operands: merged
/// either way round, two summaries hold the same sums for every kind.
pub proof fn lemma_add_commutative(a: CostsSummary, b: CostsSummary, kind: EventKind)
    requires
        a.wf(),
        b.wf(),
    ensures
        value_of(merged(tallies(a@), tallies(b@)), kind) == value_of(
            merged(tallies(b@), tallies(a@)),
            kind,
        ),
{
    lemma_tallies(a@);
    lemma_tallies(b@);
    lemma_merged(tallies(a@), tallies(b@));
    lemma_merged(tallies(b@), tallies(a@));
}

/// Accumulation does not depend on how its operands are grouped: three
/// summaries merged from the left or from the right hold the same sums for
/// every kind.
pub proof fn lemma_add_associative(a: CostsSummary, b: CostsSummary, c: CostsSummary, kind: EventKind)
    requires
        a.wf(),
        b.wf(),
        c.wf(),
    ensures
        value_of(merged(merged(tallies(a@), tallies(b@)), tallies(c@)), kind) == value_of(
            merged(tallies(a@), merged(tallies(b@), tallies(c@))),
            kind,
        ),
{
    lemma_tallies(a@);
    lemma_tallies(b@);
    lemma_tallies(c@);
    lemma_merged(tallies(a@), tallies(b@));
    lemma_merged(tallies(b@), tallies(c@));
    lemma_merged(merged(tallies(a@), tallies(b@)), tallies(c@));
    lemma_merged(tallies(a@), merged(tallies(b@), tallies(c@)));
}

/// A vector compared with itself: the summary holds every kind of it, in
/// its order, with the cost on both sides, a change of zero percent and a
/// factor of one.
pub proof fn lemma_self_comparison(entries: Seq<(EventKind, u64)>)
    requires
        unique_kinds(entries),
    ensures
        kinds_of(compared(Some(entries), Some(entries))) == kinds_of(entries),
        forall|i: int|
            0 <= i < entries.len() ==> {
                let diff = (#[trigger] compared(Some(entries), Some(entries))[i]).1;
                &&& diff.new == Some(entries[i].1)
                &&& diff.old == Some(entries[i].1)
                &&& diff.diff_pct_spec() matches Some(change) && change.is_integer(0)
                &&& diff.factor_spec() matches Some(multiple) && multiple.is_integer(1)
            },
{
    let kinds = kinds_of(entries);
    let summary = compared(Some(entries), Some(entries));
    lemma_unique_kinds(entries);
    lemma_unseen(kinds, kinds);
    let rest = unseen_kinds(kinds, kinds);
    if rest.len() > 0 {
        assert(rest.contains(rest[0]));
    }
    assert(union_kinds(kinds, kinds) =~= kinds);
    assert(kinds_of(summary) =~= kinds);
    assert forall|i: int| 0 <= i < entries.len() implies {
        let diff = (#[trigger] summary[i]).1;
        &&& diff.new == Some(entries[i].1)
        &&& diff.old == Some(entries[i].1)
        &&& diff.diff_pct_spec() matches Some(change) && change.is_integer(0)
        &&& diff.factor_spec() matches Some(multiple) && multiple.is_integer(1)
    } by {
        lemma_lookup_at(entries, i);
        assert(summary[i].0 == entries[i].0);
        lemma_no_change(entries[i].1, Limit { num: 0, den: 1 });
    }
}

/// A vector without a baseline: the summary holds every kind of it, in its
/// order, with the cost as the new count and nothing to compare it with: no
/// old count, no percentage, no factor.
pub proof fn lemma_new_only(entries: Seq<(EventKind, u64)>)
    requires
        unique_kinds(entries),
    ensures
        compared(Some(entries), None).len() == entries.len(),
        forall|i: int|
            0 <= i < entries.len() ==> {
                let entry = #[trigger] compared(Some(entries), None)[i];
                &&& entry.0 == entries[i].0
                &&& entry.1.new == Some(entries[i].1)
                &&& entry.1.old.is_none()
                &&& entry.1.diff_pct_spec().is_none()
                &&& entry.1.factor_spec().is_none()
            },
{
    assert forall|i: int| 0 <= i < entries.len() implies {
        let entry = #[trigger] compared(Some(entries), None)[i];
        &&& entry.0 == entries[i].0
        &&& entry.1.new == Some(entries[i].1)
        &&& entry.1.old.is_none()
        &&& entry.1.diff_pct_spec().is_none()
        &&& entry.1.factor_spec().is_none()
    } by {
        lemma_lookup_at(entries, i);
    }
}

/// A baseline without a new vector: the summary holds every kind of it, in
/// its order, with the cost as the old count and no new count, percentage
/// or factor.
pub proof fn lemma_old_only(entries: Seq<(EventKind, u64)>)
    requires
        unique_kinds(entries),
    ensures
        compared(None, Some(entries)).len() == entries.len(),
        forall|i: int|
            0 <= i < entries.len() ==> {
                let entry = #[trigger] compared(None, Some(entries))[i];
                &&& entry.0 == entries[i].0
                &&& entry.1.new.is_none()
                &&& entry.1.old == Some(entries[i].1)
                &&& entry.1.diff_pct_spec().is_none()
                &&& entry.1.factor_spec().is_none()
            },
{
    assert forall|i: int| 0 <= i < entries.len() implies {
        let entry = #[trigger] compared(None, Some(entries))[i];
        &&& entry.0 == entries[i].0
        &&& entry.1.new.is_none()
        &&& entry.1.old == Some(entries[i].1)
        &&& entry.1.diff_pct_spec().is_none()
        &&& entry.1.factor_spec().is_none()
    } by {
        lemma_lookup_at(entries, i);
    }
}

/// The diffs of a comparison, one per event kind, in a fixed order.
#[derive(Debug, Clone, PartialEq, Eq)]
pub struct CostsSummary {
    entries: Vec<(EventKind, CostsDiff)>,
}

impl View for CostsSummary {
    type V = Seq<(EventKind, CostsDiff)>;

    closed spec fn view(&self) -> Seq<(EventKind, CostsDiff)> {
        self.entries@
    }
}

impl Default for CostsSummary {
    /// The summary of nothing: no kind, no diff.
    fn default() -> (summary: CostsSummary)
        ensures
            summary.wf(),
            summary@ == Seq::<(EventKind, CostsDiff)>::empty(),
    {
        CostsSummary { entries: Vec::new() }
    }
}

impl CostsSummary {
    /// The summary is in a valid state: no kind has two diffs. Every summary
    /// that this library hands out is.
    pub open spec fn wf(&self) -> bool {
        unique_kinds(self@)
    }

    /// Compares the cost vector of a new run with that of an old run, or
    /// takes up the one that there is. The summary holds a diff for every
    /// kind that either vector holds: the kinds of the new vector first, in
    /// their order, then those that only the old one holds.
    pub fn new(costs: EitherOrBoth<Costs>) -> (summary: CostsSummary)
        requires
            new_side(costs) matches Some(c) ==> c.wf(),
            old_side(costs) matches Some(c) ==> c.wf(),
        ensures
            summary.wf(),
            summary@ == compared(
                owned_entries(new_side(costs)),
                owned_entries(old_side(costs)),
            ),
    {
        match &costs {
            EitherOrBoth::Left(new) => CostsSummary::from_sides(Some(new), None),
            EitherOrBoth::Right(old) => CostsSummary::from_sides(None, Some(old)),
            EitherOrBoth::Both((new, old)) => CostsSummary::from_sides(Some(new), Some(old)),
        }
    }

    /// Compares two cost vectors, each of which may be absent.
    pub fn from_sides(new: Option<&Costs>, old: Option<&Costs>) -> (summary: CostsSummary)
        requires
            new matches Some(c) ==> c.wf(),
            old matches Some(c) ==> c.wf(),
        ensures
            summary.wf(),
            summary@ == compared(entries_of(new), entries_of(old)),
    {
        let ghost new_entries = entries_of(new);
        let ghost old_entries = entries_of(old);
        let kinds = match (new, old) {
            (Some(n), Some(o)) => {
                proof {
                    n.lemma_unique_kinds();
                    o.lemma_unique_kinds();
                    lemma_unique_kinds(n@);
                    lemma_unique_kinds(o@);
                    lemma_union_kinds(kinds_of(n@), kinds_of(o@));
                }
                n.event_kinds_union(o)
            },
            (Some(n), None) => {
                proof {
                    n.lemma_unique_kinds();
                    lemma_unique_kinds(n@);
                }
                n.event_kinds()
            },
            (None, Some(o)) => {
                proof {
                    o.lemma_unique_kinds();
                    lemma_unique_kinds(o@);
                }
                o.event_kinds()
            },
            (None, None) => Vec::new(),
        };
        assert(kinds@ == compared_kinds(new_entries, old_entries));
        let ghost diff = |kind: EventKind| diff_of(kind, new_entries, old_entries);
        let mut entries: Vec<(EventKind, CostsDiff)> = Vec::new();
        let mut i: usize = 0;
        while i < kinds.len()
            invariant
                i <= kinds.len(),
                new matches Some(c) ==> c.wf(),
                old matches Some(c) ==> c.wf(),
                new_entries == entries_of(new),
                old_entries == entries_of(old),
                diff == |kind: EventKind| diff_of(kind, new_entries, old_entries),
                entries@ == keyed(kinds@.take(i as int), diff),
            decreases kinds.len() - i,
        {
            let kind = kinds[i];
            entries.push((kind, CostsDiff::new(&kind, new, old)));
            assert(entries@ =~= keyed(kinds@.take(i + 1), diff));
            i += 1;
        }
        proof {
            assert(kinds@.take(kinds.len() as int) =~= kinds@);
            lemma_keyed(kinds@, diff);
        }
        CostsSummary { entries }
    }

    /// The diff of `kind`, if the summary holds the kind.
    pub fn diff_by_kind(&self, kind: &EventKind) -> (diff: Option<CostsDiff>)
        requires
            self.wf(),
        ensures
            diff == value_of(self@, *kind),
    {
        let mut i: usize = 0;
        while i < self.entries.len()
            invariant
                i <= self.entries.len(),
                self.wf(),
                forall|j: int| 0 <= j < i ==> (#[trigger] self@[j]).0 != *kind,
            decreases self.entries.len() - i,
        {
            let (entry_kind, entry_diff) = self.entries[i];
            if entry_kind == *kind {
                proof {
                    lemma_lookup_at(self@, i as int);
                }
                return Some(entry_diff);
            }
            i += 1;
        }
        None
    }

    /// Whether `other` can be added within 64 bits: what `add` asks of its
    /// caller.
    pub fn can_add(&self, other: &CostsSummary) -> (ok: bool)
        requires
            self.wf(),
            other.wf(),
        ensures
            ok == all_fit(merged(tallies(self@), tallies(other@))),
    {
        proof {
            lemma_merged_fits(self@, other@);
            lemma_tallies(self@);
            lemma_tallies(other@);
        }
        let ghost a = tallies(self@);
        let ghost b = tallies(other@);
        let mut i: usize = 0;
        while i < self.entries.len()
            invariant
                i <= self.entries.len(),
                self.wf(),
                other.wf(),
                a == tallies(self@),
                b == tallies(other@),
                unique_kinds(a),
                forall|kind: EventKind| #[trigger]
                    value_of(b, kind) == diff_view(value_of(other@, kind)),
                forall|j: int| 0 <= j < i ==> total_at(a, b, (#[trigger] self@[j]).0).fits(),
            decreases self.entries.len() - i,
        {
            let (kind, diff) = self.entries[i];
            proof {
                assert(a[i as int] == (kind, diff@));
                lemma_lookup_at(a, i as int);
            }
            let fits = match other.diff_by_kind(&kind) {
                Some(other_diff) => diff.can_add(&other_diff),
                None => true,
            };
            if !fits {
                proof {
                    lemma_merged_fits(self@, other@);
                    assert(!total_at(a, b, self@[i as int].0).fits());
                }
                return false;
            }
            i += 1;
        }
        true
    }

    /// Adds the diffs of `other` to this summary, kind by kind. The diff of a
    /// kind that both hold becomes the sum of the two: new counts and old
    /// counts are summed independently, and percentage and factor follow
    /// from the sums. A kind that only `other` holds is appended with the
    /// diff that `other` has for it, after the kinds of this summary and in
    /// the order of `other`.
    pub fn add(&mut self, other: &CostsSummary)
        requires
            old(self).wf(),
            other.wf(),
            all_fit(merged(tallies(old(self)@), tallies(other@))),
        ensures
            final(self).wf(),
            tallies(final(self)@) == merged(tallies(old(self)@), tallies(other@)),
    {
        let ghost before = self@;
        let ghost a = tallies(self@);
        let ghost b = tallies(other@);
        let ghost first = kinds_of(a);
        let ghost second = kinds_of(b);
        let ghost total = |kind: EventKind| total_at(a, b, kind);
        proof {
            lemma_tallies(before);
            lemma_tallies(other@);
            lemma_unique_kinds(a);
            lemma_unique_kinds(b);
        }
        let len = self.entries.len();
        let mut i: usize = 0;
        while i < len
            invariant
                i <= len,
                len == before.len(),
                self@.len() == len,
                other.wf(),
                unique_kinds(before),
                a == tallies(before),
                b == tallies(other@),
                unique_kinds(a),
                unique_kinds(b),
                first == kinds_of(a),
                second == kinds_of(b),
                total == |kind: EventKind| total_at(a, b, kind),
                all_fit(merged(a, b)),
                forall|j: int|
                    0 <= j < i ==> (#[trigger] self@[j]).0 == before[j].0 && self@[j].1@ == total(
                        before[j].0,
                    ),
                forall|j: int| i <= j < len ==> #[trigger] self@[j] == before[j],
            decreases len - i,
        {
            let (kind, diff) = self.entries[i];
            proof {
                lemma_tallies(other@);
                let at = i as int;
                assert(a[at] == (kind, diff@));
                lemma_lookup_at(a, at);
                assert(union_kinds(first, second)[at] == first[at]);
                assert(merged(a, b)[at] == (kind, total(kind)));
                assert(merged(a, b)[at].1.fits());
            }
            match other.diff_by_kind(&kind) {
                Some(other_diff) => {
                    let sum = diff.add(&other_diff);
                    self.entries.set(i, (kind, sum));
                },
                None => {},
            }
            i += 1;
        }
        proof {
            reveal(Seq::filter);
            assert(unseen_kinds(first, second.take(0)) =~= Seq::<EventKind>::empty());
            assert(tallies(self@) =~= keyed(first + unseen_kinds(first, second.take(0)), total));
        }
        let other_len = other.entries.len();
        let mut j: usize = 0;
        while j < other_len
            invariant
                j <= other_len,
                other_len == other@.len(),
                other.wf(),
                a == tallies(before),
                b == tallies(other@),
                unique_kinds(a),
                unique_kinds(b),
                first == kinds_of(a),
                second == kinds_of(b),
                first.no_duplicates(),
                second.no_duplicates(),
                total == |kind: EventKind| total_at(a, b, kind),
                tallies(self@) == keyed(first + unseen_kinds(first, second.take(j as int)), total),
            decreases other_len - j,
        {
            let (kind, diff) = other.entries[j];
            let ghost seen = second.take(j as int);
            let ghost upto = second.take(j + 1);
            proof {
                assert(kinds_of(self@) =~= kinds_of(tallies(self@)));
                assert(kinds_of(tallies(self@)) =~= first + unseen_kinds(first, seen));
                lemma_union_kinds(first, seen);
                lemma_unique_kinds(self@);
                lemma_kinds_contain(self@, kind);
                lemma_kinds_contain(a, kind);
                lemma_unseen(first, seen);
                assert(second[j as int] == kind);
                assert(!seen.contains(kind));
                assert(has_kind(self@, kind) <==> has_kind(a, kind));
                reveal(Seq::filter);
                assert(upto.drop_last() =~= seen);
                assert(upto.last() == kind);
                lemma_tallies(other@);
                assert(b[j as int] == (kind, diff@));
                lemma_lookup_at(b, j as int);
            }
            let ghost prior = self@;
            if self.diff_by_kind(&kind).is_none() {
                self.entries.push((kind, diff));
                proof {
                    assert(!first.contains(kind));
                    assert(unseen_kinds(first, upto) == unseen_kinds(first, seen).push(kind));
                    assert(value_of(a, kind).is_none());
                    assert(value_of(b, kind) == Some(diff@));
                    assert(total(kind) == diff@);
                    assert(self@ == prior.push((kind, diff)));
                    assert(tallies(self@) =~= tallies(prior).push((kind, diff@)));
                    assert(first + unseen_kinds(first, upto) =~= (first + unseen_kinds(
                        first,
                        seen,
                    )).push(kind));
                    assert(tallies(self@) =~= keyed(first + unseen_kinds(first, upto), total));
                }
            } else {
                assert(unseen_kinds(first, upto) == unseen_kinds(first, seen));
            }
            j += 1;
        }
        proof {
            assert(second.take(other_len as int) =~= second);
            lemma_merged(a, b);
            assert(kinds_of(self@) =~= kinds_of(tallies(self@)));
            lemma_unique_kinds(tallies(self@));
            lemma_unique_kinds(self@);
        }
    }

    /// All diffs with their kinds, in the order of the summary.
    pub fn all_diffs(&self) -> (diffs: &Vec<(EventKind, CostsDiff)>)
        ensures
            diffs@ == self@,
    {
        &self.entries
    }
}

} // verus!
