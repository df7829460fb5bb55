use callgrind_core::cache::{CacheCounters, CacheSummary};
use callgrind_core::costs::Costs;
use callgrind_core::error::Error;
use callgrind_core::event_kind::EventKind;

fn raw_costs(costs: [u64; 9]) -> Costs {
    Costs::with_event_kinds(vec![
        (EventKind::Ir, costs[0]),
        (EventKind::Dr, costs[1]),
        (EventKind::Dw, costs[2]),
        (EventKind::I1mr, costs[3]),
        (EventKind::D1mr, costs[4]),
        (EventKind::D1mw, costs[5]),
        (EventKind::ILmr, costs[6]),
        (EventKind::DLmr, costs[7]),
        (EventKind::DLmw, costs[8]),
    ])
}

fn derived(costs: &Costs) -> Vec<Option<u64>> {
    vec![
        costs.cost_by_kind(&EventKind::L1hits),
        costs.cost_by_kind(&EventKind::LLhits),
        costs.cost_by_kind(&EventKind::RamHits),
        costs.cost_by_kind(&EventKind::TotalRW),
        costs.cost_by_kind(&EventKind::EstimatedCycles),
    ]
}

#[test]
fn the_formula_on_a_small_run() {
    let costs = raw_costs([96, 24, 18, 6, 0, 2, 6, 0, 2]);
    let summary = CacheSummary::try_from(&costs).unwrap();
    assert_eq!(
        summary,
        CacheSummary {
            l1_hits: 130,
            l3_hits: 0,
            ram_hits: 8,
            total_memory_rw: 138,
            cycles: 410,
        }
    );
}

#[test]
fn the_formula_with_hits_at_every_level() {
    // misses of the first level: 10 + 20 + 30 = 60; of the last: 1 + 2 + 3 = 6
    let costs = raw_costs([1000, 200, 100, 10, 20, 30, 1, 2, 3]);
    let summary = CacheSummary::try_from(&costs).unwrap();
    assert_eq!(summary.ram_hits, 6);
    assert_eq!(summary.l3_hits, 54);
    assert_eq!(summary.total_memory_rw, 1300);
    assert_eq!(summary.l1_hits, 1240);
    assert_eq!(summary.cycles, 1240 + 5 * 54 + 35 * 6);
    assert_eq!(summary.cycles, 1720);
}

#[test]
fn every_access_is_counted_once() {
    for raw in [
        [96u64, 24, 18, 6, 0, 2, 6, 0, 2],
        [1000, 200, 100, 10, 20, 30, 1, 2, 3],
        [0, 0, 0, 0, 0, 0, 0, 0, 0],
        [5, 0, 0, 5, 0, 0, 5, 0, 0],
    ] {
        let summary = CacheSummary::try_from(&raw_costs(raw)).unwrap();
        assert_eq!(
            summary.l1_hits + summary.l3_hits + summary.ram_hits,
            raw[0] + raw[1] + raw[2]
        );
    }
}

#[test]
fn make_summary_appends_the_derived_metrics() {
    let mut costs = raw_costs([96, 24, 18, 6, 0, 2, 6, 0, 2]);
    assert!(!costs.is_summarized());
    assert_eq!(costs.make_summary(), Ok(()));
    assert!(costs.is_summarized());
    assert_eq!(
        costs.iter(),
        vec![
            (EventKind::Ir, 96),
            (EventKind::Dr, 24),
            (EventKind::Dw, 18),
            (EventKind::I1mr, 6),
            (EventKind::D1mr, 0),
            (EventKind::D1mw, 2),
            (EventKind::ILmr, 6),
            (EventKind::DLmr, 0),
            (EventKind::DLmw, 2),
            (EventKind::L1hits, 130),
            (EventKind::LLhits, 0),
            (EventKind::RamHits, 8),
            (EventKind::TotalRW, 138),
            (EventKind::EstimatedCycles, 410),
        ]
    );
}

#[test]
fn make_summary_twice_is_make_summary_once() {
    let mut costs = raw_costs([1000, 200, 100, 10, 20, 30, 1, 2, 3]);
    costs.make_summary().unwrap();
    let once = costs.clone();
    costs.make_summary().unwrap();
    assert_eq!(costs, once);
    assert_eq!(derived(&costs), derived(&once));
}

#[test]
fn make_summary_overwrites_what_was_derived_before() {
    let mut costs = raw_costs([96, 24, 18, 6, 0, 2, 6, 0, 2]);
    costs.make_summary().unwrap();
    costs.add_iter_str(&["4"]);
    costs.make_summary().unwrap();
    assert_eq!(
        derived(&costs),
        vec![Some(134), Some(0), Some(8), Some(142), Some(414)]
    );
    assert_eq!(costs.len(), 14);
    assert_eq!(costs.cost_by_index(9), Some(134));
}

#[test]
fn a_missing_counter_is_named() {
    let mut costs = Costs::with_event_kinds(vec![(EventKind::Ir, 1), (EventKind::Dr, 2)]);
    assert_eq!(
        costs.make_summary(),
        Err(Error::MissingMetric(EventKind::Dw))
    );
    assert_eq!(costs.iter(), vec![(EventKind::Ir, 1), (EventKind::Dr, 2)]);
    assert!(!costs.is_summarized());
    assert_eq!(
        CacheSummary::try_from(&Costs::default()),
        Err(Error::MissingMetric(EventKind::Dr))
    );
    assert_eq!(
        CacheSummary::try_from(&Costs::with_event_kinds(vec![])),
        Err(Error::MissingMetric(EventKind::Ir))
    );
    let without_last = Costs::with_event_kinds(vec![
        (EventKind::Ir, 0),
        (EventKind::Dr, 0),
        (EventKind::Dw, 0),
        (EventKind::I1mr, 0),
        (EventKind::D1mr, 0),
        (EventKind::D1mw, 0),
        (EventKind::ILmr, 0),
        (EventKind::DLmr, 0),
    ]);
    assert_eq!(
        CacheCounters::read(&without_last),
        Err(Error::MissingMetric(EventKind::DLmw))
    );
}

#[test]
fn counters_are_read_by_kind_not_by_place() {
    let costs = Costs::with_event_kinds(vec![
        (EventKind::DLmw, 9),
        (EventKind::DLmr, 8),
        (EventKind::ILmr, 7),
        (EventKind::D1mw, 6),
        (EventKind::D1mr, 5),
        (EventKind::I1mr, 4),
        (EventKind::Dw, 3),
        (EventKind::Dr, 2),
        (EventKind::Ir, 1),
    ]);
    assert_eq!(
        CacheCounters::read(&costs),
        Ok(CacheCounters {
            ir: 1,
            dr: 2,
            dw: 3,
            i1mr: 4,
            d1mr: 5,
            d1mw: 6,
            ilmr: 7,
            dlmr: 8,
            dlmw: 9,
        })
    );
}

#[test]
fn counters_of_no_real_run_are_not_derivable() {
    let more_ram_hits_than_misses = CacheCounters {
        ir: 10,
        dr: 0,
        dw: 0,
        i1mr: 1,
        d1mr: 0,
        d1mw: 0,
        ilmr: 2,
        dlmr: 0,
        dlmw: 0,
    };
    assert!(!more_ram_hits_than_misses.is_derivable());
    let more_misses_than_accesses = CacheCounters {
        ir: 1,
        dr: 0,
        dw: 0,
        i1mr: 2,
        d1mr: 0,
        d1mw: 0,
        ilmr: 0,
        dlmr: 0,
        dlmw: 0,
    };
    assert!(!more_misses_than_accesses.is_derivable());
    let too_many_cycles = CacheCounters {
        ir: u64::MAX,
        dr: 0,
        dw: 0,
        i1mr: u64::MAX,
        d1mr: 0,
        d1mw: 0,
        ilmr: u64::MAX,
        dlmr: 0,
        dlmw: 0,
    };
    assert!(!too_many_cycles.is_derivable());
    let fine = CacheCounters {
        ir: u64::MAX,
        dr: 0,
        dw: 0,
        i1mr: 0,
        d1mr: 0,
        d1mw: 0,
        ilmr: 0,
        dlmr: 0,
        dlmw: 0,
    };
    assert!(fine.is_derivable());
    assert_eq!(CacheSummary::from_counters(fine).cycles, u64::MAX);
}
