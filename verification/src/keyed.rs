//! Entries keyed by event kind and kept in a fixed order: what cost vectors
//! and summaries have in common, stated once over sequences of pairs.

use crate::event_kind::EventKind;
use vstd::prelude::*;

verus! {

/// Whether `entries` holds an entry of `kind`.
pub open spec fn has_kind<V>(entries: Seq<(EventKind, V)>, kind: EventKind) -> bool {
    exists|i: int| 0 <= i < entries.len() && entries[i].0 == kind
}

/// The position of the entry of `kind` in `entries`.
pub open spec fn kind_index<V>(entries: Seq<(EventKind, V)>, kind: EventKind) -> int
    recommends
        has_kind(entries, kind),
{
    choose|i: int| 0 <= i < entries.len() && entries[i].0 == kind
}

/// What `entries` holds for `kind`, if it holds the kind.
pub open spec fn value_of<V>(entries: Seq<(EventKind, V)>, kind: EventKind) -> Option<V> {
    if has_kind(entries, kind) {
        Some(entries[kind_index(entries, kind)].1)
    } else {
        None
    }
}

/// No kind has two entries in `entries`.
pub open spec fn unique_kinds<V>(entries: Seq<(EventKind, V)>) -> bool {
    forall|i: int, j: int|
        0 <= i < entries.len() && 0 <= j < entries.len() && i != j ==> entries[i].0
            != entries[j].0
}

/// The kinds of `entries`, in their order.
pub open spec fn kinds_of<V>(entries: Seq<(EventKind, V)>) -> Seq<EventKind> {
    entries.map_values(|e: (EventKind, V)| e.0)
}

/// Where no kind is repeated, the entry at a position is the one that a
/// lookup of its kind finds.
pub proof fn lemma_lookup_at<V>(entries: Seq<(EventKind, V)>, i: int)
    requires
        unique_kinds(entries),
        0 <= i < entries.len(),
    ensures
        has_kind(entries, entries[i].0),
        kind_index(entries, entries[i].0) == i,
        value_of(entries, entries[i].0) == Some(entries[i].1),
{
}

/// A kind is among the kinds of `entries` exactly if `entries` holds it.
pub proof fn lemma_kinds_contain<V>(entries: Seq<(EventKind, V)>, kind: EventKind)
    ensures
        kinds_of(entries).contains(kind) <==> has_kind(entries, kind),
{
    let kinds = kinds_of(entries);
    if has_kind(entries, kind) {
        let at = kind_index(entries, kind);
        assert(kinds[at] == kind);
    }
    if kinds.contains(kind) {
        let at = choose|at: int| 0 <= at < kinds.len() && kinds[at] == kind;
        assert(entries[at].0 == kind);
    }
}

/// The kinds of `second` that `first` lacks, in the order of `second`.
pub open spec fn unseen_kinds(first: Seq<EventKind>, second: Seq<EventKind>) -> Seq<EventKind> {
    second.filter(|kind: EventKind| !first.contains(kind))
}

/// The kinds of `first` in their order, then those of `second` that `first`
/// lacks, in theirs.
pub open spec fn union_kinds(first: Seq<EventKind>, second: Seq<EventKind>) -> Seq<EventKind> {
    first + unseen_kinds(first, second)
}

/// The union holds each kind of either sequence once, where neither holds a
/// kind twice.
pub proof fn lemma_union_kinds(first: Seq<EventKind>, second: Seq<EventKind>)
    requires
        first.no_duplicates(),
        second.no_duplicates(),
    ensures
        union_kinds(first, second).no_duplicates(),
        forall|kind: EventKind| #[trigger]
            union_kinds(first, second).contains(kind) <==> (first.contains(kind)
                || second.contains(kind)),
{
    let unseen = |kind: EventKind| !first.contains(kind);
    let rest = second.filter(unseen);
    let all = union_kinds(first, second);
    lemma_unseen(first, second);
    assert forall|i: int, j: int| 0 <= i < all.len() && 0 <= j < all.len() && i != j implies all[i]
        != all[j] by {
        if i < first.len() && j >= first.len() {
            assert(rest.contains(rest[j - first.len()]));
        }
        if j < first.len() && i >= first.len() {
            assert(rest.contains(rest[i - first.len()]));
        }
    }
    assert forall|kind: EventKind| #[trigger]
        all.contains(kind) <==> (first.contains(kind) || second.contains(kind)) by {
        if all.contains(kind) {
            let at = choose|at: int| 0 <= at < all.len() && all[at] == kind;
            if at >= first.len() {
                assert(rest.contains(rest[at - first.len()]));
            }
        }
        if first.contains(kind) {
            let at = choose|at: int| 0 <= at < first.len() && first[at] == kind;
            assert(all[at] == kind);
        } else if second.contains(kind) {
            assert(rest.contains(kind));
            let at = choose|at: int| 0 <= at < rest.len() && rest[at] == kind;
            assert(all[first.len() + at] == kind);
        }
    }
}

/// The kinds of `second` that `first` lacks: each of them once, where
/// `second` holds none twice.
pub proof fn lemma_unseen(first: Seq<EventKind>, second: Seq<EventKind>)
    requires
        second.no_duplicates(),
    ensures
        unseen_kinds(first, second).no_duplicates(),
        forall|kind: EventKind| #[trigger]
            unseen_kinds(first, second).contains(kind) <==> (second.contains(kind)
                && !first.contains(kind)),
    decreases second.len(),
{
    reveal(Seq::filter);
    let unseen = |kind: EventKind| !first.contains(kind);
    let rest = second.filter(unseen);
    if second.len() > 0 {
        let shorter = second.drop_last();
        let last = second.last();
        let shorter_rest = shorter.filter(unseen);
        lemma_unseen(first, shorter);
        assert forall|kind: EventKind| shorter.contains(kind) implies second.contains(kind)
            && kind != last by {
            let at = choose|at: int| 0 <= at < shorter.len() && shorter[at] == kind;
            assert(second[at] == kind);
        }
        assert forall|kind: EventKind| second.contains(kind) && kind != last implies shorter.contains(
            kind,
        ) by {
            let at = choose|at: int| 0 <= at < second.len() && second[at] == kind;
            assert(shorter[at] == kind);
        }
        assert(second.contains(last)) by {
            assert(second[second.len() - 1] == last);
        }
        if unseen(last) {
            assert(rest == shorter_rest.push(last));
            assert(!shorter_rest.contains(last));
            assert forall|i: int, j: int|
                0 <= i < rest.len() && 0 <= j < rest.len() && i != j implies rest[i]
                != rest[j] by {
                if i < shorter_rest.len() {
                    assert(shorter_rest.contains(rest[i]));
                }
                if j < shorter_rest.len() {
                    assert(shorter_rest.contains(rest[j]));
                }
            }
            assert forall|kind: EventKind| #[trigger]
                rest.contains(kind) <==> (second.contains(kind) && !first.contains(kind)) by {
                if rest.contains(kind) {
                    let at = choose|at: int| 0 <= at < rest.len() && rest[at] == kind;
                    if at < shorter_rest.len() {
                        assert(shorter_rest.contains(kind));
                    }
                }
                if second.contains(kind) && !first.contains(kind) {
                    if kind == last {
                        assert(rest[rest.len() - 1] == kind);
                    } else {
                        assert(shorter_rest.contains(kind));
                        let at = choose|at: int|
                            0 <= at < shorter_rest.len() && shorter_rest[at] == kind;
                        assert(rest[at] == kind);
                    }
                }
            }
        } else {
            assert(rest == shorter_rest);
        }
    }
}

/// The entries that give each of `kinds` the value that `value` has for it.
pub open spec fn keyed<V>(kinds: Seq<EventKind>, value: spec_fn(EventKind) -> V) -> Seq<
    (EventKind, V),
> {
    kinds.map_values(|kind: EventKind| (kind, value(kind)))
}

/// Entries made from kinds without repetition hold exactly those kinds, each
/// with its value.
pub proof fn lemma_keyed<V>(kinds: Seq<EventKind>, value: spec_fn(EventKind) -> V)
    requires
        kinds.no_duplicates(),
    ensures
        unique_kinds(keyed(kinds, value)),
        kinds_of(keyed(kinds, value)) == kinds,
        forall|kind: EventKind|
            #[trigger] has_kind(keyed(kinds, value), kind) <==> kinds.contains(kind),
        forall|kind: EventKind|
            kinds.contains(kind) ==> #[trigger] value_of(keyed(kinds, value), kind) == Some(
                value(kind),
            ),
{
    let entries = keyed(kinds, value);
    assert(kinds_of(entries) =~= kinds);
    assert forall|kind: EventKind| #[trigger] has_kind(entries, kind) <==> kinds.contains(kind) by {
        lemma_kinds_contain(entries, kind);
    }
    assert forall|kind: EventKind| kinds.contains(kind) implies #[trigger] value_of(entries, kind)
        == Some(value(kind)) by {
        let at = choose|at: int| 0 <= at < kinds.len() && kinds[at] == kind;
        assert(entries[at].0 == kind);
        lemma_lookup_at(entries, at);
    }
}

/// No kind of `entries` is repeated exactly if none is among their kinds.
pub proof fn lemma_unique_kinds<V>(entries: Seq<(EventKind, V)>)
    ensures
        unique_kinds(entries) <==> kinds_of(entries).no_duplicates(),
{
    let kinds = kinds_of(entries);
    if unique_kinds(entries) {
        assert forall|i: int, j: int|
            0 <= i < kinds.len() && 0 <= j < kinds.len() && i != j implies kinds[i]
            != kinds[j] by {
            assert(entries[i].0 != entries[j].0);
        }
    }
    if kinds.no_duplicates() {
        assert forall|i: int, j: int|
            0 <= i < entries.len() && 0 <= j < entries.len() && i != j implies entries[i].0
            != entries[j].0 by {
            assert(kinds[i] != kinds[j]);
        }
    }
}

} // verus!
