//! The cost vector: counters keyed by event kind, in insertion order.

use crate::cache::{cache_summary_of, derivable_entries, summarized, CacheSummary};
use crate::error::Error;
use crate::event_kind::{EventKind, KIND_COUNT};
use crate::keyed::{
    has_kind, kind_index, kinds_of, lemma_lookup_at, union_kinds, unique_kinds, value_of,
};
use crate::ordered_map::{
    key_position, map_clone, map_entries, map_get, map_get_index, map_insert, map_len, map_new,
    map_same, map_set_index,
};
use crate::parse::{parse_decimal, parse_number};
use indexmap::IndexMap;
use vstd::pervasive::unreached;
use vstd::prelude::*;
use vstd::std_specs::cmp::PartialEqSpecImpl;

verus! {

/// The counter of `kind` in `entries`, if there is one.
pub open spec fn cost_of(entries: Seq<(EventKind, u64)>, kind: EventKind) -> Option<u64> {
    value_of(entries, kind)
}

/// `entries` with the counter of `kind` set to `cost`: a kind that is there
/// keeps its place, a new one goes to the end.
pub open spec fn put(entries: Seq<(EventKind, u64)>, kind: EventKind, cost: u64) -> Seq<
    (EventKind, u64),
> {
    if has_kind(entries, kind) {
        entries.update(kind_index(entries, kind), (kind, cost))
    } else {
        entries.push((kind, cost))
    }
}

/// The vector that results from putting `pairs` one after the other into an
/// empty one: a kind stands where it first occurs, with the cost of its last
/// occurrence.
pub open spec fn collect(pairs: Seq<(EventKind, u64)>) -> Seq<(EventKind, u64)>
    decreases pairs.len(),
{
    if pairs.len() == 0 {
        Seq::empty()
    } else {
        put(collect(pairs.drop_last()), pairs.last().0, pairs.last().1)
    }
}

/// What putting a counter does to every lookup: the kind that was put has
/// the new cost, every other kind has what it had. No kind is repeated
/// afterwards if none was before.
pub proof fn lemma_put(entries: Seq<(EventKind, u64)>, kind: EventKind, cost: u64)
    requires
        unique_kinds(entries),
    ensures
        unique_kinds(put(entries, kind, cost)),
        cost_of(put(entries, kind, cost), kind) == Some(cost),
        forall|other: EventKind|
            other != kind ==> #[trigger] cost_of(put(entries, kind, cost), other) == cost_of(
                entries,
                other,
            ),
        forall|other: EventKind|
            #[trigger] has_kind(put(entries, kind, cost), other) <==> (other == kind || has_kind(
                entries,
                other,
            )),
{
    let after = put(entries, kind, cost);
    let at = if has_kind(entries, kind) {
        kind_index(entries, kind)
    } else {
        entries.len() as int
    };
    assert(after[at] == (kind, cost));
    assert forall|i: int| 0 <= i < after.len() && i != at implies 0 <= i < entries.len()
        && #[trigger] after[i] == entries[i] by {}
    assert forall|i: int, j: int|
        0 <= i < after.len() && 0 <= j < after.len() && i != j implies after[i].0
        != after[j].0 by {
        if i != at && j != at {
            assert(entries[i].0 != entries[j].0);
        }
    }
    lemma_lookup_at(after, at);
    assert forall|other: EventKind| other != kind implies #[trigger] cost_of(after, other)
        == cost_of(entries, other) by {
        if has_kind(entries, other) {
            let i = kind_index(entries, other);
            assert(after[i] == entries[i]);
            lemma_lookup_at(after, i);
        }
        if has_kind(after, other) {
            let i = kind_index(after, other);
            assert(after[i] == entries[i]);
            lemma_lookup_at(entries, i);
        }
    }
    assert forall|other: EventKind| #[trigger]
        has_kind(after, other) <==> (other == kind || has_kind(entries, other)) by {
        if has_kind(entries, other) {
            let i = kind_index(entries, other);
            assert(after[i].0 == entries[i].0 || i == at);
        }
        if has_kind(after, other) && other != kind {
            let i = kind_index(after, other);
            assert(after[i] == entries[i]);
        }
    }
}

/// Putting the cost that a kind already has changes nothing.
pub proof fn lemma_put_same(entries: Seq<(EventKind, u64)>, kind: EventKind, cost: u64)
    requires
        cost_of(entries, kind) == Some(cost),
    ensures
        put(entries, kind, cost) == entries,
{
    let at = kind_index(entries, kind);
    assert(entries[at] == (kind, cost));
    assert(entries.update(at, (kind, cost)) =~= entries);
}

/// The costs of `entries`, in their order.
pub open spec fn amounts_of(entries: Seq<(EventKind, u64)>) -> Seq<u64> {
    entries.map_values(|e: (EventKind, u64)| e.1)
}

/// Each counter of `entries` can take the amount at its position without
/// leaving 64 bits.
pub open spec fn addable(entries: Seq<(EventKind, u64)>, amounts: Seq<u64>) -> bool {
    forall|i: int|
        0 <= i < entries.len() && i < amounts.len() ==> entries[i].1 + amounts[i] <= u64::MAX
}

/// `entries` with the amount at each position added to the counter at that
/// position. Counters without an amount stay as they are; amounts without a
/// counter are dropped.
pub open spec fn added(entries: Seq<(EventKind, u64)>, amounts: Seq<u64>) -> Seq<
    (EventKind, u64),
> {
    Seq::new(
        entries.len(),
        |i: int|
            (
                entries[i].0,
                if i < amounts.len() {
                    (entries[i].1 + amounts[i]) as u64
                } else {
                    entries[i].1
                },
            ),
    )
}

/// The tokens that meet a counter of a vector of `len` counters are numbers.
pub open spec fn readable(len: nat, tokens: Seq<&str>) -> bool {
    forall|i: int| 0 <= i < len && i < tokens.len() ==> parse_number(tokens[i]@, 10).is_some()
}

/// The numbers that `tokens` write; zero for one that writes none.
pub open spec fn token_amounts(tokens: Seq<&str>) -> Seq<u64> {
    Seq::new(tokens.len(), |i: int| parse_number(tokens[i]@, 10).unwrap_or(0))
}

/// `kinds` are the kinds that the profiler's `names` name, one by one.
pub open spec fn named_by(kinds: Seq<EventKind>, names: Seq<&str>) -> bool {
    &&& kinds.len() == names.len()
    &&& forall|i: int| 0 <= i < kinds.len() ==> (#[trigger] kinds[i]).profiler_name() == Some(names[i]@)
}

/// The vector of `kinds` in their order, all costs zero.
pub open spec fn zeroed(kinds: Seq<EventKind>) -> Seq<(EventKind, u64)> {
    collect(kinds.map_values(|kind: EventKind| (kind, 0u64)))
}

/// What the stored pairs stand for: each code read as its kind.
spec fn decode(raw: Seq<(u8, u64)>) -> Seq<(EventKind, u64)> {
    raw.map_values(|e: (u8, u64)| (EventKind::from_code_spec(e.0), e.1))
}

/// The stored pairs hold codes of the catalog only, and none twice.
spec fn raw_ok(raw: Seq<(u8, u64)>) -> bool {
    &&& forall|i: int| 0 <= i < raw.len() ==> (#[trigger] raw[i]).0 < KIND_COUNT
    &&& forall|i: int, j: int|
        0 <= i < raw.len() && 0 <= j < raw.len() && i != j ==> (#[trigger] raw[i]).0 != (
        #[trigger] raw[j]).0
}

proof fn lemma_decode_unique(raw: Seq<(u8, u64)>)
    requires
        raw_ok(raw),
    ensures
        unique_kinds(decode(raw)),
        decode(raw).len() == raw.len(),
{
    let dec = decode(raw);
    assert forall|i: int, j: int|
        0 <= i < dec.len() && 0 <= j < dec.len() && i != j implies dec[i].0 != dec[j].0 by {
        assert(raw[i].0 != raw[j].0);
        if dec[i].0 == dec[j].0 {
            assert(dec[i].0.code_spec() == raw[i].0);
            assert(dec[j].0.code_spec() == raw[j].0);
        }
    }
}

/// Looking a kind up among the stored pairs by its code finds what looking
/// it up in the decoded vector finds.
proof fn lemma_decode_lookup(raw: Seq<(u8, u64)>, kind: EventKind)
    requires
        raw_ok(raw),
    ensures
        has_kind(decode(raw), kind) <==> key_position(raw, kind.code_spec()).is_some(),
        has_kind(decode(raw), kind) ==> key_position(raw, kind.code_spec()) == Some(
            kind_index(decode(raw), kind),
        ),
{
    let dec = decode(raw);
    let code = kind.code_spec();
    lemma_decode_unique(raw);
    if has_kind(dec, kind) {
        let i = kind_index(dec, kind);
        assert(dec[i].0 == kind);
        assert(raw[i].0 < KIND_COUNT);
        assert(raw[i].0 == code);
        let j = choose|j: int| 0 <= j < raw.len() && raw[j].0 == code;
        assert(raw[j].0 == raw[i].0);
        assert(i == j);
    }
    if key_position(raw, code).is_some() {
        let j = choose|j: int| 0 <= j < raw.len() && raw[j].0 == code;
        assert(dec[j].0 == kind);
    }
}

/// Counters keyed by event kind. The order in which the kinds were put in is
/// kept: it is the order in which the profiler declares and reports them.
#[derive(Debug)]
pub struct Costs {
    map: IndexMap<u8, u64>,
}

impl View for Costs {
    type V = Seq<(EventKind, u64)>;

    closed spec fn view(&self) -> Seq<(EventKind, u64)> {
        decode(map_entries(self.map))
    }
}

impl PartialEq for Costs {
    /// Two vectors are equal where they hold the same kinds with the same
    /// costs in the same order.
    fn eq(&self, other: &Costs) -> (same: bool) {
        map_same(&self.map, &other.map)
    }
}

impl PartialEqSpecImpl for Costs {
    open spec fn obeys_eq_spec() -> bool {
        true
    }

    open spec fn eq_spec(&self, other: &Costs) -> bool {
        self.stored() == other.stored()
    }
}

impl Eq for Costs {

}

impl Clone for Costs {
    fn clone(&self) -> (copy: Costs)
        ensures
            copy@ == self@,
            copy.wf() == self.wf(),
    {
        Costs { map: map_clone(&self.map) }
    }
}

impl Costs {
    /// The pairs as they are stored.
    pub closed spec fn stored(&self) -> Seq<(u8, u64)> {
        map_entries(self.map)
    }

    /// The vector is in a valid state. Every vector that this library hands
    /// out is.
    pub closed spec fn wf(&self) -> bool {
        raw_ok(map_entries(self.map))
    }

    /// In a valid vector no kind has two counters.
    pub proof fn lemma_unique_kinds(&self)
        requires
            self.wf(),
        ensures
            unique_kinds(self@),
    {
        lemma_decode_unique(map_entries(self.map));
    }

    /// An empty vector.
    fn empty() -> (costs: Costs)
        ensures
            costs.wf(),
            costs@ == Seq::<(EventKind, u64)>::empty(),
    {
        let costs = Costs { map: map_new() };
        assert(costs@ =~= Seq::<(EventKind, u64)>::empty());
        costs
    }

    /// Sets the counter of `kind` to `cost`, at its place if the kind is in
    /// the vector and at the end if it is not.
    fn set(&mut self, kind: EventKind, cost: u64)
        requires
            old(self).wf(),
        ensures
            final(self).wf(),
            final(self)@ == put(old(self)@, kind, cost),
    {
        let ghost raw = map_entries(self.map);
        proof {
            lemma_decode_lookup(raw, kind);
            lemma_decode_unique(raw);
        }
        let code = kind.code();
        let _ = map_insert(&mut self.map, code, cost);
        proof {
            let after = map_entries(self.map);
            let dec = decode(raw);
            if has_kind(dec, kind) {
                let i = kind_index(dec, kind);
                assert(after == raw.update(i, (code, cost)));
                assert(raw[i].0 == code);
                assert(decode(after) =~= dec.update(i, (kind, cost)));
                assert forall|a: int, b: int|
                    0 <= a < after.len() && 0 <= b < after.len() && a != b implies (
                #[trigger] after[a]).0 != (#[trigger] after[b]).0 by {
                    assert(after[a].0 == raw[a].0);
                    assert(after[b].0 == raw[b].0);
                }
            } else {
                assert(after == raw.push((code, cost)));
                assert(decode(after) =~= dec.push((kind, cost)));
                assert forall|a: int, b: int|
                    0 <= a < after.len() && 0 <= b < after.len() && a != b implies (
                #[trigger] after[a]).0 != (#[trigger] after[b]).0 by {
                    if a < raw.len() {
                        assert(after[a] == raw[a]);
                    }
                    if b < raw.len() {
                        assert(after[b] == raw[b]);
                    }
                }
            }
        }
    }

    /// A vector of the given kinds and costs, in the order given. Where a
    /// kind is given more than once, it stands at the place of its first
    /// occurrence with the cost of its last.
    pub fn with_event_kinds(kinds: Vec<(EventKind, u64)>) -> (costs: Costs)
        ensures
            costs.wf(),
            costs@ == collect(kinds@),
    {
        let mut costs = Costs::empty();
        let mut i: usize = 0;
        while i < kinds.len()
            invariant
                i <= kinds.len(),
                costs.wf(),
                costs@ == collect(kinds@.take(i as int)),
            decreases kinds.len() - i,
        {
            let (kind, cost) = kinds[i];
            costs.set(kind, cost);
            proof {
                assert(kinds@.take(i + 1).drop_last() =~= kinds@.take(i as int));
                assert(kinds@.take(i + 1).last() == kinds@[i as int]);
            }
            i += 1;
        }
        assert(kinds@.take(kinds.len() as int) =~= kinds@);
        costs
    }

    /// The number of counters.
    pub fn len(&self) -> (n: usize)
        requires
            self.wf(),
        ensures
            n == self@.len(),
    {
        map_len(&self.map)
    }

    /// The cost at a position of the insertion order, if the vector is that
    /// long.
    pub fn cost_by_index(&self, index: usize) -> (cost: Option<u64>)
        requires
            self.wf(),
        ensures
            cost == if index < self@.len() {
                Some(self@[index as int].1)
            } else {
                None
            },
    {
        match map_get_index(&self.map, index) {
            Some((_, cost)) => Some(cost),
            None => None,
        }
    }

    /// The cost of `kind`, if the vector holds the kind.
    pub fn cost_by_kind(&self, kind: &EventKind) -> (cost: Option<u64>)
        requires
            self.wf(),
        ensures
            cost == cost_of(self@, *kind),
    {
        proof {
            lemma_decode_lookup(map_entries(self.map), *kind);
        }
        map_get(&self.map, kind.code())
    }

    /// The cost of `kind`, or the failure that names the kind as missing.
    pub fn try_cost_by_kind(&self, kind: &EventKind) -> (cost: Result<u64, Error>)
        requires
            self.wf(),
        ensures
            cost == match cost_of(self@, *kind) {
                Some(c) => Ok::<u64, Error>(c),
                None => Err(Error::MissingMetric(*kind)),
            },
    {
        match self.cost_by_kind(kind) {
            Some(c) => Ok(c),
            None => Err(Error::MissingMetric(*kind)),
        }
    }

    /// The pair at a position of the insertion order.
    fn entry(&self, index: usize) -> (entry: (EventKind, u64))
        requires
            self.wf(),
            index < self@.len(),
        ensures
            entry == self@[index as int],
    {
        match map_get_index(&self.map, index) {
            Some((code, cost)) => match EventKind::from_code(code) {
                Some(kind) => (kind, cost),
                None => unreached(),
            },
            None => unreached(),
        }
    }

    /// Adds `amount` to the counter at a position.
    fn add_at(&mut self, index: usize, amount: u64)
        requires
            old(self).wf(),
            index < old(self)@.len(),
            old(self)@[index as int].1 + amount <= u64::MAX,
        ensures
            final(self).wf(),
            final(self)@ == old(self)@.update(
                index as int,
                (old(self)@[index as int].0, (old(self)@[index as int].1 + amount) as u64),
            ),
    {
        let ghost raw = map_entries(self.map);
        let (_, cost) = self.entry(index);
        map_set_index(&mut self.map, index, cost + amount);
        proof {
            let after = map_entries(self.map);
            assert forall|a: int, b: int|
                0 <= a < after.len() && 0 <= b < after.len() && a != b implies (
            #[trigger] after[a]).0 != (#[trigger] after[b]).0 by {
                assert(after[a].0 == raw[a].0);
                assert(after[b].0 == raw[b].0);
            }
            assert forall|a: int| 0 <= a < after.len() implies (#[trigger] after[a]).0
                < KIND_COUNT by {
                assert(after[a].0 == raw[a].0);
            }
            assert(decode(after) =~= decode(raw).update(
                index as int,
                (decode(raw)[index as int].0, (decode(raw)[index as int].1 + amount) as u64),
            ));
        }
    }

    /// Whether the tokens of a cost line can be added: those that meet a
    /// counter are numbers, and no sum leaves 64 bits. This is what
    /// `add_iter_str` asks of its caller.
    pub fn can_add_iter_str(&self, tokens: &[&str]) -> (ok: bool)
        requires
            self.wf(),
        ensures
            ok == (readable(self@.len(), tokens@) && addable(self@, token_amounts(tokens@))),
    {
        let ghost amounts = token_amounts(tokens@);
        let len = self.len();
        let mut i: usize = 0;
        while i < len && i < tokens.len()
            invariant
                self.wf(),
                len == self@.len(),
                i <= len,
                i <= tokens.len(),
                amounts == token_amounts(tokens@),
                forall|j: int| 0 <= j < i ==> parse_number((#[trigger] tokens[j])@, 10).is_some(),
                forall|j: int| 0 <= j < i ==> self@[j].1 + #[trigger] amounts[j] <= u64::MAX,
            decreases len - i,
        {
            let (_, cost) = self.entry(i);
            match parse_decimal(tokens[i]) {
                Some(amount) => {
                    assert(amount == amounts[i as int]);
                    if cost.checked_add(amount).is_none() {
                        assert(!addable(self@, amounts));
                        return false;
                    }
                },
                None => {
                    assert(!readable(self@.len(), tokens@));
                    return false;
                },
            }
            i += 1;
        }
        true
    }

    /// Whether the costs of `other` can be added within 64 bits: what `add`
    /// asks of its caller.
    pub fn can_add(&self, other: &Costs) -> (ok: bool)
        requires
            self.wf(),
            other.wf(),
        ensures
            ok == addable(self@, amounts_of(other@)),
    {
        let ghost amounts = amounts_of(other@);
        let len = self.len();
        let other_len = other.len();
        let mut i: usize = 0;
        while i < len && i < other_len
            invariant
                self.wf(),
                other.wf(),
                len == self@.len(),
                other_len == other@.len(),
                i <= len,
                i <= other_len,
                amounts == amounts_of(other@),
                forall|j: int| 0 <= j < i ==> self@[j].1 + #[trigger] amounts[j] <= u64::MAX,
            decreases len - i,
        {
            let (_, cost) = self.entry(i);
            let (_, amount) = other.entry(i);
            assert(amount == amounts[i as int]);
            if cost.checked_add(amount).is_none() {
                assert(!addable(self@, amounts));
                return false;
            }
            i += 1;
        }
        true
    }

    /// Adds the numbers that `tokens` write to the counters, position by
    /// position, in the order of the profiler's cost line. A cost line may
    /// be shorter than the vector: the counters it does not reach are left
    /// as they are, which is to add zero. Tokens past the last counter are
    /// not read.
    pub fn add_iter_str(&mut self, tokens: &[&str])
        requires
            old(self).wf(),
            readable(old(self)@.len(), tokens@),
            addable(old(self)@, token_amounts(tokens@)),
        ensures
            final(self).wf(),
            final(self)@ == added(old(self)@, token_amounts(tokens@)),
    {
        let ghost before = self@;
        let ghost amounts = token_amounts(tokens@);
        let len = self.len();
        let mut i: usize = 0;
        assert(self@ =~= added(before, amounts.take(0)));
        while i < len && i < tokens.len()
            invariant
                self.wf(),
                len == before.len(),
                i <= len,
                i <= tokens.len(),
                amounts == token_amounts(tokens@),
                readable(before.len(), tokens@),
                addable(before, amounts),
                self@ == added(before, amounts.take(i as int)),
            decreases len - i,
        {
            match parse_decimal(tokens[i]) {
                Some(amount) => {
                    assert(amount == amounts[i as int]);
                    self.add_at(i, amount);
                },
                None => {
                    assert(false);
                },
            }
            assert(self@ =~= added(before, amounts.take(i + 1)));
            i += 1;
        }
        assert(self@ =~= added(before, amounts));
    }

    /// Adds the costs of `other` to the counters, position by position. The
    /// two vectors are meant to hold the same kinds in the same order.
    /// Counters past the end of `other` are left as they are, and costs of
    /// `other` past the last counter are dropped.
    pub fn add(&mut self, other: &Costs)
        requires
            old(self).wf(),
            other.wf(),
            addable(old(self)@, amounts_of(other@)),
        ensures
            final(self).wf(),
            final(self)@ == added(old(self)@, amounts_of(other@)),
    {
        let ghost before = self@;
        let ghost amounts = amounts_of(other@);
        let len = self.len();
        let other_len = other.len();
        let mut i: usize = 0;
        assert(self@ =~= added(before, amounts.take(0)));
        while i < len && i < other_len
            invariant
                self.wf(),
                other.wf(),
                len == before.len(),
                other_len == other@.len(),
                i <= len,
                i <= other_len,
                amounts == amounts_of(other@),
                addable(before, amounts),
                self@ == added(before, amounts.take(i as int)),
            decreases len - i,
        {
            let (_, amount) = other.entry(i);
            assert(amount == amounts[i as int]);
            self.add_at(i, amount);
            assert(self@ =~= added(before, amounts.take(i + 1)));
            i += 1;
        }
        assert(self@ =~= added(before, amounts));
    }

    /// The kinds of the vector, in insertion order.
    pub fn event_kinds(&self) -> (kinds: Vec<EventKind>)
        requires
            self.wf(),
        ensures
            kinds@ == kinds_of(self@),
    {
        let len = self.len();
        let mut kinds: Vec<EventKind> = Vec::new();
        let mut i: usize = 0;
        while i < len
            invariant
                self.wf(),
                len == self@.len(),
                i <= len,
                kinds@ == kinds_of(self@).take(i as int),
            decreases len - i,
        {
            let (kind, _) = self.entry(i);
            kinds.push(kind);
            assert(kinds@ =~= kinds_of(self@).take(i + 1));
            i += 1;
        }
        assert(kinds@ =~= kinds_of(self@));
        kinds
    }

    /// The pairs of the vector, in insertion order.
    pub fn iter(&self) -> (entries: Vec<(EventKind, u64)>)
        requires
            self.wf(),
        ensures
            entries@ == self@,
    {
        let len = self.len();
        let mut entries: Vec<(EventKind, u64)> = Vec::new();
        let mut i: usize = 0;
        while i < len
            invariant
                self.wf(),
                len == self@.len(),
                i <= len,
                entries@ == self@.take(i as int),
            decreases len - i,
        {
            entries.push(self.entry(i));
            assert(entries@ =~= self@.take(i + 1));
            i += 1;
        }
        assert(entries@ =~= self@);
        entries
    }

    /// Computes the derived metrics and writes them into the vector: hits
    /// at the first level, at the last level and in main memory, all reads
    /// and writes, and the estimate of cycles. Metrics that are there from
    /// an earlier call are overwritten in place. Where one of the nine
    /// counters of the cache simulation is missing, the vector stays as it
    /// is and the failure names the first one that is.
    pub fn make_summary(&mut self) -> (done: Result<(), Error>)
        requires
            old(self).wf(),
            derivable_entries(old(self)@),
        ensures
            final(self).wf(),
            final(self)@ == summarized(old(self)@),
            done == match cache_summary_of(old(self)@) {
                Ok(_) => Ok::<(), Error>(()),
                Err(e) => Err(e),
            },
    {
        match CacheSummary::try_from(&*self) {
            Ok(summary) => {
                self.set(EventKind::L1hits, summary.l1_hits);
                self.set(EventKind::LLhits, summary.l3_hits);
                self.set(EventKind::RamHits, summary.ram_hits);
                self.set(EventKind::TotalRW, summary.total_memory_rw);
                self.set(EventKind::EstimatedCycles, summary.cycles);
                Ok(())
            },
            Err(e) => Err(e),
        }
    }

    /// Whether the derived metrics are in the vector. The estimate of cycles
    /// stands for all of them.
    pub fn is_summarized(&self) -> (summarized: bool)
        requires
            self.wf(),
        ensures
            summarized == cost_of(self@, EventKind::EstimatedCycles).is_some(),
    {
        self.cost_by_kind(&EventKind::EstimatedCycles).is_some()
    }

    /// The kinds of this vector in their order, followed by the kinds that
    /// only `other` holds, in the order of `other`.
    pub fn event_kinds_union(&self, other: &Costs) -> (kinds: Vec<EventKind>)
        requires
            self.wf(),
            other.wf(),
        ensures
            kinds@ == union_kinds(kinds_of(self@), kinds_of(other@)),
    {
        let mut kinds = self.event_kinds();
        let ghost first = kinds_of(self@);
        let ghost second = kinds_of(other@);
        let ghost unseen = |kind: EventKind| !first.contains(kind);
        let len = other.len();
        let mut i: usize = 0;
        proof {
            reveal(Seq::filter);
            assert(second.take(0).filter(unseen) =~= Seq::<EventKind>::empty());
            assert(kinds@ =~= first + second.take(0).filter(unseen));
        }
        while i < len
            invariant
                self.wf(),
                other.wf(),
                len == other@.len(),
                i <= len,
                first == kinds_of(self@),
                second == kinds_of(other@),
                unseen == |kind: EventKind| !first.contains(kind),
                kinds@ == first + second.take(i as int).filter(unseen),
            decreases len - i,
        {
            let (kind, _) = other.entry(i);
            let known = self.cost_by_kind(&kind).is_some();
            proof {
                reveal(Seq::filter);
                let upto = second.take(i + 1);
                assert(upto.drop_last() =~= second.take(i as int));
                assert(upto.last() == kind);
                if has_kind(self@, kind) {
                    let at = kind_index(self@, kind);
                    assert(first[at] == kind);
                }
                if first.contains(kind) {
                    let at = choose|at: int| 0 <= at < first.len() && first[at] == kind;
                    assert(self@[at].0 == kind);
                }
                assert(known == first.contains(kind));
            }
            if !known {
                kinds.push(kind);
            }
            assert(kinds@ =~= first + second.take(i + 1).filter(unseen));
            i += 1;
        }
        assert(second.take(len as int) =~= second);
        kinds
    }

    /// A vector of the kinds that the profiler declares by `names`, in that
    /// order, all counters zero. A name that is no kind's is a failure.
    pub fn from_iter(names: &[&str]) -> (costs: Result<Costs, Error>)
        ensures
            costs matches Ok(c) ==> c.wf() && exists|kinds: Seq<EventKind>|
                {
                    &&& #[trigger] named_by(kinds, names@)
                    &&& c@ == zeroed(kinds)
                },
            costs matches Err(e) ==> e == Error::UnknownEventKind && exists|i: int|
                0 <= i < names.len() && forall|kind: EventKind|
                    kind.profiler_name() != Some(#[trigger] names[i]@),
    {
        let mut pairs: Vec<(EventKind, u64)> = Vec::new();
        let ghost mut kinds = Seq::<EventKind>::empty();
        let mut i: usize = 0;
        while i < names.len()
            invariant
                i <= names.len(),
                kinds.len() == i,
                forall|j: int| 0 <= j < i ==> (#[trigger] kinds[j]).profiler_name() == Some(names[j]@),
                pairs@ == kinds.map_values(|kind: EventKind| (kind, 0u64)),
            decreases names.len() - i,
        {
            match EventKind::from_name(names[i]) {
                Ok(kind) => {
                    pairs.push((kind, 0));
                    proof {
                        let longer = kinds.push(kind);
                        assert(pairs@ =~= longer.map_values(|kind: EventKind| (kind, 0u64)));
                        kinds = longer;
                    }
                },
                Err(e) => {
                    return Err(e);
                },
            }
            i += 1;
        }
        let costs = Costs::with_event_kinds(pairs);
        assert(named_by(kinds, names@));
        Ok(costs)
    }
}

impl Default for Costs {
    /// The vector of a run without any option: the instruction counter
    /// alone, at zero.
    fn default() -> (costs: Costs)
        ensures
            costs.wf(),
            costs@ == seq![(EventKind::Ir, 0u64)],
    {
        let mut costs = Costs::empty();
        costs.set(EventKind::Ir, 0);
        assert(costs@ =~= seq![(EventKind::Ir, 0u64)]);
        costs
    }
}

} // verus!
