//! The metrics derived from the counters of the cache simulation: hits per
//! level of the memory hierarchy, and the estimate of cpu cycles.

use crate::costs::{cost_of, lemma_put, lemma_put_same, put, Costs};
use crate::keyed::unique_kinds;
use crate::error::Error;
use crate::event_kind::EventKind;
use vstd::prelude::*;

verus! {

/// The nine counters that the profiler reports when it simulates the caches.
#[derive(Debug, Clone, Copy, PartialEq, Eq, Structural)]
pub struct CacheCounters {
    /// Instructions fetched.
    pub ir: u64,
    /// Data reads.
    pub dr: u64,
    /// Data writes.
    pub dw: u64,
    /// Instruction fetches that missed the first level.
    pub i1mr: u64,
    /// Data reads that missed the first level.
    pub d1mr: u64,
    /// Data writes that missed the first level.
    pub d1mw: u64,
    /// Instruction fetches that missed the last level.
    pub ilmr: u64,
    /// Data reads that missed the last level.
    pub dlmr: u64,
    /// Data writes that missed the last level.
    pub dlmw: u64,
}

impl CacheCounters {
    /// Accesses that no cache served: the misses of the last level.
    pub open spec fn ram_hits(self) -> int {
        self.ilmr + self.dlmr + self.dlmw
    }

    /// Accesses that the first level did not serve. Each of them goes on to
    /// the last level.
    pub open spec fn l1_misses(self) -> int {
        self.i1mr + (self.d1mr + self.d1mw)
    }

    /// Accesses that the last level served.
    pub open spec fn ll_hits(self) -> int {
        self.l1_misses() - self.ram_hits()
    }

    /// All accesses: instruction fetches, data reads and data writes.
    pub open spec fn total_memory_rw(self) -> int {
        self.ir + self.dr + self.dw
    }

    /// Accesses that the first level served.
    pub open spec fn l1_hits(self) -> int {
        self.total_memory_rw() - self.ram_hits() - self.ll_hits()
    }

    /// The estimate of cycles: an access costs 1 cycle at the first level,
    /// 5 at the last level and 35 in main memory.
    pub open spec fn cycles(self) -> int {
        self.l1_hits() + 5 * self.ll_hits() + 35 * self.ram_hits()
    }

    /// The counters are those of a real run, and the metrics fit in 64 bits:
    /// no level misses more often than it is asked.
    pub open spec fn derivable(self) -> bool {
        &&& self.ram_hits() <= self.l1_misses()
        &&& self.l1_misses() <= self.total_memory_rw()
        &&& self.total_memory_rw() <= u64::MAX
        &&& self.cycles() <= u64::MAX
    }

    /// Whether the metrics can be derived from these counters.
    #[verifier::when_used_as_spec(derivable)]
    pub fn is_derivable(self) -> (ok: bool)
        ensures
            ok == self.derivable(),
    {
        let ram = self.ilmr as u128 + self.dlmr as u128 + self.dlmw as u128;
        let misses = self.i1mr as u128 + self.d1mr as u128 + self.d1mw as u128;
        let total = self.ir as u128 + self.dr as u128 + self.dw as u128;
        if ram <= misses && misses <= total && total <= u64::MAX as u128 {
            let cycles = (total - misses) + 5 * (misses - ram) + 35 * ram;
            cycles <= u64::MAX as u128
        } else {
            false
        }
    }
}

/// The derived metrics of one cost vector.
#[derive(Debug, Clone, Copy, PartialEq, Eq, Structural)]
pub struct CacheSummary {
    /// Accesses served by the first-level caches.
    pub l1_hits: u64,
    /// Accesses served by the last-level cache.
    pub l3_hits: u64,
    /// Accesses served by main memory.
    pub ram_hits: u64,
    /// All memory reads and writes.
    pub total_memory_rw: u64,
    /// The estimate of cpu cycles.
    pub cycles: u64,
}

/// The metrics that the counters determine.
pub open spec fn summary_of(raw: CacheCounters) -> CacheSummary
    recommends
        raw.derivable(),
{
    CacheSummary {
        l1_hits: raw.l1_hits() as u64,
        l3_hits: raw.ll_hits() as u64,
        ram_hits: raw.ram_hits() as u64,
        total_memory_rw: raw.total_memory_rw() as u64,
        cycles: raw.cycles() as u64,
    }
}

/// The nine counters of the cache simulation as `entries` holds them, or the
/// failure that names the first of them that is missing.
pub open spec fn cache_counters_of(entries: Seq<(EventKind, u64)>) -> Result<CacheCounters, Error> {
    if cost_of(entries, EventKind::Ir).is_none() {
        Err(Error::MissingMetric(EventKind::Ir))
    } else if cost_of(entries, EventKind::Dr).is_none() {
        Err(Error::MissingMetric(EventKind::Dr))
    } else if cost_of(entries, EventKind::Dw).is_none() {
        Err(Error::MissingMetric(EventKind::Dw))
    } else if cost_of(entries, EventKind::I1mr).is_none() {
        Err(Error::MissingMetric(EventKind::I1mr))
    } else if cost_of(entries, EventKind::D1mr).is_none() {
        Err(Error::MissingMetric(EventKind::D1mr))
    } else if cost_of(entries, EventKind::D1mw).is_none() {
        Err(Error::MissingMetric(EventKind::D1mw))
    } else if cost_of(entries, EventKind::ILmr).is_none() {
        Err(Error::MissingMetric(EventKind::ILmr))
    } else if cost_of(entries, EventKind::DLmr).is_none() {
        Err(Error::MissingMetric(EventKind::DLmr))
    } else if cost_of(entries, EventKind::DLmw).is_none() {
        Err(Error::MissingMetric(EventKind::DLmw))
    } else {
        Ok(
            CacheCounters {
                ir: cost_of(entries, EventKind::Ir).unwrap(),
                dr: cost_of(entries, EventKind::Dr).unwrap(),
                dw: cost_of(entries, EventKind::Dw).unwrap(),
                i1mr: cost_of(entries, EventKind::I1mr).unwrap(),
                d1mr: cost_of(entries, EventKind::D1mr).unwrap(),
                d1mw: cost_of(entries, EventKind::D1mw).unwrap(),
                ilmr: cost_of(entries, EventKind::ILmr).unwrap(),
                dlmr: cost_of(entries, EventKind::DLmr).unwrap(),
                dlmw: cost_of(entries, EventKind::DLmw).unwrap(),
            },
        )
    }
}

/// The metrics can be derived from `entries`, or a counter is missing and
/// the question does not arise.
pub open spec fn derivable_entries(entries: Seq<(EventKind, u64)>) -> bool {
    cache_counters_of(entries) matches Ok(raw) ==> raw.derivable()
}

/// The derived metrics of `entries`, or the failure that names the first
/// missing counter.
pub open spec fn cache_summary_of(entries: Seq<(EventKind, u64)>) -> Result<CacheSummary, Error> {
    match cache_counters_of(entries) {
        Ok(raw) => Ok(summary_of(raw)),
        Err(e) => Err(e),
    }
}

/// `entries` with the five derived metrics put in, in the order in which
/// reports show them.
pub open spec fn with_summary(entries: Seq<(EventKind, u64)>, summary: CacheSummary) -> Seq<
    (EventKind, u64),
> {
    put(
        put(
            put(
                put(
                    put(entries, EventKind::L1hits, summary.l1_hits),
                    EventKind::LLhits,
                    summary.l3_hits,
                ),
                EventKind::RamHits,
                summary.ram_hits,
            ),
            EventKind::TotalRW,
            summary.total_memory_rw,
        ),
        EventKind::EstimatedCycles,
        summary.cycles,
    )
}

/// `entries` after the derived metrics were computed and written back; the
/// same `entries` where a counter is missing.
pub open spec fn summarized(entries: Seq<(EventKind, u64)>) -> Seq<(EventKind, u64)> {
    match cache_summary_of(entries) {
        Ok(summary) => with_summary(entries, summary),
        Err(_) => entries,
    }
}

impl CacheCounters {
    /// Reads the nine counters from a cost vector. A counter that is not
    /// there is reported, never taken as zero.
    pub fn read(costs: &Costs) -> (counters: Result<CacheCounters, Error>)
        requires
            costs.wf(),
        ensures
            counters == cache_counters_of(costs@),
    {
        let ir = costs.try_cost_by_kind(&EventKind::Ir)?;
        let dr = costs.try_cost_by_kind(&EventKind::Dr)?;
        let dw = costs.try_cost_by_kind(&EventKind::Dw)?;
        let i1mr = costs.try_cost_by_kind(&EventKind::I1mr)?;
        let d1mr = costs.try_cost_by_kind(&EventKind::D1mr)?;
        let d1mw = costs.try_cost_by_kind(&EventKind::D1mw)?;
        let ilmr = costs.try_cost_by_kind(&EventKind::ILmr)?;
        let dlmr = costs.try_cost_by_kind(&EventKind::DLmr)?;
        let dlmw = costs.try_cost_by_kind(&EventKind::DLmw)?;
        Ok(CacheCounters { ir, dr, dw, i1mr, d1mr, d1mw, ilmr, dlmr, dlmw })
    }
}

impl CacheSummary {
    /// Derives the metrics from the nine counters. Every access is counted
    /// at exactly one level.
    pub fn from_counters(raw: CacheCounters) -> (summary: CacheSummary)
        requires
            raw.derivable(),
        ensures
            summary == summary_of(raw),
            summary.l1_hits + summary.l3_hits + summary.ram_hits == raw.ir + raw.dr + raw.dw,
            summary.total_memory_rw == raw.ir + raw.dr + raw.dw,
            summary.cycles == summary.l1_hits + 5 * summary.l3_hits + 35 * summary.ram_hits,
    {
        let ram_hits = raw.ilmr + raw.dlmr + raw.dlmw;
        let l1_data_misses = raw.d1mr + raw.d1mw;
        let l1_misses = raw.i1mr + l1_data_misses;
        let l3_accesses = l1_misses;
        let l3_hits = l3_accesses - ram_hits;
        let total_memory_rw = raw.ir + raw.dr + raw.dw;
        let l1_hits = total_memory_rw - ram_hits - l3_hits;
        let cycles = l1_hits + (5 * l3_hits) + (35 * ram_hits);
        CacheSummary { l1_hits, l3_hits, ram_hits, total_memory_rw, cycles }
    }

    /// The derived metrics of a cost vector, or the failure that names the
    /// first of the nine counters that the vector lacks.
    pub fn try_from(costs: &Costs) -> (summary: Result<CacheSummary, Error>)
        requires
            costs.wf(),
            derivable_entries(costs@),
        ensures
            summary == cache_summary_of(costs@),
    {
        match CacheCounters::read(costs) {
            Ok(raw) => Ok(CacheSummary::from_counters(raw)),
            Err(e) => Err(e),
        }
    }
}

/// Conservation: every access is served at exactly one level, so the hits
/// of the three levels add up to the instruction fetches, data reads and
/// data writes.
pub proof fn lemma_every_access_counted_once(raw: CacheCounters)
    requires
        raw.derivable(),
    ensures
        summary_of(raw).l1_hits + summary_of(raw).l3_hits + summary_of(raw).ram_hits == raw.ir
            + raw.dr + raw.dw,
{
}

/// What the vector holds once the metrics were written into it: the five
/// metrics, and every other kind as before.
pub proof fn lemma_with_summary(entries: Seq<(EventKind, u64)>, summary: CacheSummary)
    requires
        unique_kinds(entries),
    ensures
        unique_kinds(with_summary(entries, summary)),
        cost_of(with_summary(entries, summary), EventKind::L1hits) == Some(summary.l1_hits),
        cost_of(with_summary(entries, summary), EventKind::LLhits) == Some(summary.l3_hits),
        cost_of(with_summary(entries, summary), EventKind::RamHits) == Some(summary.ram_hits),
        cost_of(with_summary(entries, summary), EventKind::TotalRW) == Some(
            summary.total_memory_rw,
        ),
        cost_of(with_summary(entries, summary), EventKind::EstimatedCycles) == Some(
            summary.cycles,
        ),
        forall|kind: EventKind|
            !kind.is_derived_spec() ==> #[trigger] cost_of(with_summary(entries, summary), kind)
                == cost_of(entries, kind),
{
    let a = put(entries, EventKind::L1hits, summary.l1_hits);
    let b = put(a, EventKind::LLhits, summary.l3_hits);
    let c = put(b, EventKind::RamHits, summary.ram_hits);
    let d = put(c, EventKind::TotalRW, summary.total_memory_rw);
    lemma_put(entries, EventKind::L1hits, summary.l1_hits);
    lemma_put(a, EventKind::LLhits, summary.l3_hits);
    lemma_put(b, EventKind::RamHits, summary.ram_hits);
    lemma_put(c, EventKind::TotalRW, summary.total_memory_rw);
    lemma_put(d, EventKind::EstimatedCycles, summary.cycles);
}

/// Conservation in the vector: once the metrics are written into it, the
/// hits of the three levels that it holds add up to the instruction
/// fetches, data reads and data writes that it holds.
pub proof fn lemma_summarized_counts_every_access_once(entries: Seq<(EventKind, u64)>)
    requires
        unique_kinds(entries),
        cache_counters_of(entries) is Ok,
        derivable_entries(entries),
    ensures
        cost_of(summarized(entries), EventKind::L1hits).unwrap() + cost_of(
            summarized(entries),
            EventKind::LLhits,
        ).unwrap() + cost_of(summarized(entries), EventKind::RamHits).unwrap() == cost_of(
            summarized(entries),
            EventKind::Ir,
        ).unwrap() + cost_of(summarized(entries), EventKind::Dr).unwrap() + cost_of(
            summarized(entries),
            EventKind::Dw,
        ).unwrap(),
        cost_of(summarized(entries), EventKind::TotalRW).unwrap() == cost_of(
            summarized(entries),
            EventKind::Ir,
        ).unwrap() + cost_of(summarized(entries), EventKind::Dr).unwrap() + cost_of(
            summarized(entries),
            EventKind::Dw,
        ).unwrap(),
{
    let raw = cache_counters_of(entries)->Ok_0;
    lemma_with_summary(entries, summary_of(raw));
    lemma_every_access_counted_once(raw);
}

/// Deriving the metrics twice gives what deriving them once gives: the
/// second run reads the same nine counters, computes the same five values
/// and finds them in place.
pub proof fn lemma_summary_idempotent(entries: Seq<(EventKind, u64)>)
    requires
        unique_kinds(entries),
    ensures
        cache_summary_of(summarized(entries)) == cache_summary_of(entries),
        summarized(summarized(entries)) == summarized(entries),
{
    match cache_summary_of(entries) {
        Ok(summary) => {
            let once = with_summary(entries, summary);
            lemma_with_summary(entries, summary);
            assert(cache_counters_of(once) == cache_counters_of(entries));
            let a = put(once, EventKind::L1hits, summary.l1_hits);
            lemma_put_same(once, EventKind::L1hits, summary.l1_hits);
            lemma_put_same(once, EventKind::LLhits, summary.l3_hits);
            lemma_put_same(once, EventKind::RamHits, summary.ram_hits);
            lemma_put_same(once, EventKind::TotalRW, summary.total_memory_rw);
            lemma_put_same(once, EventKind::EstimatedCycles, summary.cycles);
        },
        Err(_) => {},
    }
}

} // verus!
