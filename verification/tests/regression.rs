use callgrind_core::costs::Costs;
use callgrind_core::event_kind::EventKind;
use callgrind_core::ratio::{factor, percentage, Limit, Ratio};
use callgrind_core::regression::{CallgrindRegressionSummary, RegressionConfig};
use callgrind_core::summary::{CostsSummary, EitherOrBoth};

fn cachesim_costs(costs: [u64; 9]) -> Costs {
    let mut costs = Costs::with_event_kinds(vec![
        (EventKind::Ir, costs[0]),
        (EventKind::Dr, costs[1]),
        (EventKind::Dw, costs[2]),
        (EventKind::I1mr, costs[3]),
        (EventKind::D1mr, costs[4]),
        (EventKind::D1mw, costs[5]),
        (EventKind::ILmr, costs[6]),
        (EventKind::DLmr, costs[7]),
        (EventKind::DLmw, costs[8]),
    ]);
    costs.make_summary().unwrap();
    costs
}

fn check_some(
    limits: Vec<(EventKind, i64)>,
    new: [u64; 9],
    old: [u64; 9],
) -> Vec<(EventKind, u64, u64, Ratio, i64)> {
    let regression = RegressionConfig {
        limits: limits
            .into_iter()
            .map(|(kind, limit)| (kind, Limit::percent(limit)))
            .collect(),
        ..Default::default()
    };
    let summary = CostsSummary::new(EitherOrBoth::Both((
        cachesim_costs(new),
        cachesim_costs(old),
    )));
    regression
        .check(&summary)
        .into_iter()
        .map(|verdict| {
            assert_eq!(verdict.limit.den, 1);
            (
                verdict.event_kind,
                verdict.new,
                verdict.old,
                verdict.diff_pct,
                verdict.limit.num,
            )
        })
        .collect()
}

fn percent(value: i128) -> Ratio {
    Ratio::Finite { num: value, den: 1 }
}

#[test]
fn test_regression_check_when_old_is_none() {
    let regression = RegressionConfig::default();
    let new = cachesim_costs([0, 0, 0, 0, 0, 0, 0, 0, 0]);
    let summary = CostsSummary::new(EitherOrBoth::Left(new));

    assert!(regression.check(&summary).is_empty());
}

#[test]
fn regression_check_when_new_is_none() {
    let regression = RegressionConfig::default();
    let old = cachesim_costs([5, 0, 0, 0, 0, 0, 0, 0, 0]);
    let summary = CostsSummary::new(EitherOrBoth::Right(old));

    assert!(regression.check(&summary).is_empty());
}

#[test]
fn test_regression_check_when_old_is_some_ir_all_zero() {
    assert_eq!(
        check_some(
            vec![(EventKind::Ir, 0)],
            [0, 0, 0, 0, 0, 0, 0, 0, 0],
            [0, 0, 0, 0, 0, 0, 0, 0, 0]
        ),
        vec![]
    );
}

#[test]
fn test_regression_check_when_old_is_some_ir_when_regression() {
    assert_eq!(
        check_some(
            vec![(EventKind::Ir, 0)],
            [2, 0, 0, 0, 0, 0, 0, 0, 0],
            [1, 0, 0, 0, 0, 0, 0, 0, 0]
        ),
        vec![(EventKind::Ir, 2, 1, percent(100), 0)]
    );
}

#[test]
fn test_regression_check_when_old_is_some_ir_when_improved() {
    assert_eq!(
        check_some(
            vec![(EventKind::Ir, 0)],
            [1, 0, 0, 0, 0, 0, 0, 0, 0],
            [2, 0, 0, 0, 0, 0, 0, 0, 0]
        ),
        vec![]
    );
}

#[test]
fn test_regression_check_when_old_is_some_ir_when_negative_limit() {
    let verdicts = check_some(
        vec![(EventKind::Ir, -49)],
        [1, 0, 0, 0, 0, 0, 0, 0, 0],
        [2, 0, 0, 0, 0, 0, 0, 0, 0],
    );
    // -100 / 2 is -50 percent
    assert_eq!(
        verdicts,
        vec![(EventKind::Ir, 1, 2, Ratio::Finite { num: -100, den: 2 }, -49)]
    );
    assert!(!verdicts[0].3.is_above(&Limit::percent(-50)));
    assert!(!verdicts[0].3.is_below(&Limit::percent(-50)));
}

#[test]
fn test_regression_check_when_old_is_some_derived_all_zero() {
    assert_eq!(
        check_some(
            vec![(EventKind::EstimatedCycles, 0)],
            [0, 0, 0, 0, 0, 0, 0, 0, 0],
            [0, 0, 0, 0, 0, 0, 0, 0, 0]
        ),
        vec![]
    );
}

#[test]
fn test_regression_check_when_old_is_some_derived_when_regression() {
    assert_eq!(
        check_some(
            vec![(EventKind::EstimatedCycles, 0)],
            [2, 0, 0, 0, 0, 0, 0, 0, 0],
            [1, 0, 0, 0, 0, 0, 0, 0, 0]
        ),
        vec![(EventKind::EstimatedCycles, 2, 1, percent(100), 0)]
    );
}

#[test]
fn test_regression_check_when_old_is_some_derived_when_regression_multiple() {
    assert_eq!(
        check_some(
            vec![(EventKind::EstimatedCycles, 5), (EventKind::Ir, 10)],
            [2, 0, 0, 0, 0, 0, 0, 0, 0],
            [1, 0, 0, 0, 0, 0, 0, 0, 0]
        ),
        vec![
            (EventKind::EstimatedCycles, 2, 1, percent(100), 5),
            (EventKind::Ir, 2, 1, percent(100), 10)
        ]
    );
}

#[test]
fn test_regression_check_when_old_is_some_derived_when_improved() {
    assert_eq!(
        check_some(
            vec![(EventKind::EstimatedCycles, 0)],
            [1, 0, 0, 0, 0, 0, 0, 0, 0],
            [2, 0, 0, 0, 0, 0, 0, 0, 0]
        ),
        vec![]
    );
}

#[test]
fn test_regression_check_when_old_is_some_derived_when_regression_mixed() {
    let verdicts = check_some(
        vec![(EventKind::EstimatedCycles, 0)],
        [96, 24, 18, 6, 0, 2, 6, 0, 2],
        [48, 12, 9, 3, 0, 1, 3, 0, 1],
    );
    // 100 * (410 - 205) / 205 is 100 percent
    assert_eq!(
        verdicts,
        vec![(
            EventKind::EstimatedCycles,
            410,
            205,
            Ratio::Finite {
                num: 20500,
                den: 205
            },
            0
        )]
    );
    assert!(!verdicts[0].3.is_above(&Limit::percent(100)));
    assert!(!verdicts[0].3.is_below(&Limit::percent(100)));
    assert!(verdicts[0].3.is_above(&Limit::percent(99)));
}

fn flagged(limit: Limit, new: u64, old: u64) -> Vec<CallgrindRegressionSummary> {
    let regression = RegressionConfig {
        limits: vec![(EventKind::Ir, limit)],
        fail_fast: false,
    };
    let summary = CostsSummary::new(EitherOrBoth::Both((
        Costs::with_event_kinds(vec![(EventKind::Ir, new)]),
        Costs::with_event_kinds(vec![(EventKind::Ir, old)]),
    )));
    regression.check(&summary)
}

#[test]
fn a_change_that_equals_the_limit_is_not_flagged() {
    assert_eq!(flagged(Limit::percent(10), 110, 100), vec![]);
    assert_eq!(
        flagged(Limit::percent(10), 111, 100),
        vec![CallgrindRegressionSummary {
            event_kind: EventKind::Ir,
            new: 111,
            old: 100,
            diff_pct: Ratio::Finite {
                num: 1100,
                den: 100
            },
            limit: Limit::percent(10),
        }]
    );
    assert_eq!(flagged(Limit::percent(10), 109, 100), vec![]);
    assert_eq!(flagged(Limit::percent(-50), 1, 2), vec![]);
    assert_eq!(flagged(Limit::percent(-50), 49, 100).len(), 1);
}

#[test]
fn a_negative_limit_flags_a_decrease() {
    let verdicts = flagged(Limit::percent(-49), 1, 2);
    assert_eq!(verdicts.len(), 1);
    assert_eq!(verdicts[0].new, 1);
    assert_eq!(verdicts[0].old, 2);
    assert_eq!(verdicts[0].limit, Limit::percent(-49));
    assert!(verdicts[0].diff_pct.is_below(&Limit::percent(-49)));
    // an increase is none under a negative limit
    assert_eq!(flagged(Limit::percent(-49), 200, 2), vec![]);
    // nor is a decrease one under a positive limit
    assert_eq!(flagged(Limit::percent(10), 1, 2), vec![]);
}

#[test]
fn limits_that_are_fractions() {
    let half = Limit::new(1, 2).unwrap();
    assert_eq!(flagged(half, 1005, 1000), vec![]);
    assert_eq!(flagged(half, 1006, 1000).len(), 1);
    assert_eq!(flagged(half, 1004, 1000), vec![]);
    let third_down = Limit::new(-1, 3).unwrap();
    assert_eq!(flagged(third_down, 299, 300), vec![]);
    assert_eq!(flagged(third_down, 298, 300).len(), 1);
    assert_eq!(flagged(third_down, 2999, 3000), vec![]);
    assert_eq!(Limit::new(1, 0), None);
}

#[test]
fn a_change_from_nothing_crosses_every_limit_upwards() {
    assert_eq!(flagged(Limit::percent(i64::MAX), 5, 0).len(), 1);
    assert_eq!(
        flagged(Limit::percent(0), 5, 0)[0].diff_pct,
        Ratio::PosInfinity
    );
    assert_eq!(flagged(Limit::percent(-1), 5, 0), vec![]);
    assert_eq!(flagged(Limit::percent(0), 0, 0), vec![]);
}

#[test]
fn the_largest_counts_against_the_largest_limits() {
    assert_eq!(flagged(Limit::percent(i64::MAX), u64::MAX, 1).len(), 1);
    assert_eq!(flagged(Limit::percent(i64::MAX), 2, 1), vec![]);
    assert_eq!(
        flagged(Limit::new(i64::MAX, u64::MAX).unwrap(), u64::MAX, 1).len(),
        1
    );
    assert_eq!(
        flagged(Limit::new(i64::MAX, 1).unwrap(), u64::MAX, u64::MAX - 1),
        vec![]
    );
    assert_eq!(flagged(Limit::percent(i64::MIN), 0, u64::MAX), vec![]);
    assert_eq!(
        flagged(Limit::new(-99, 1).unwrap(), 0, u64::MAX).len(),
        1
    );
    assert_eq!(flagged(Limit::new(-100, 1).unwrap(), 0, u64::MAX), vec![]);
    let huge = Ratio::Finite {
        num: i128::MAX,
        den: 1,
    };
    assert!(huge.is_above(&Limit::new(i64::MAX, u64::MAX).unwrap()));
    assert!(!huge.is_below(&Limit::new(i64::MAX, u64::MAX).unwrap()));
    assert!(huge.is_above(&Limit::new(i64::MAX, 1).unwrap()));
    let tiny = Ratio::Finite {
        num: i128::MIN,
        den: 1,
    };
    assert!(tiny.is_below(&Limit::new(i64::MIN, 3).unwrap()));
    assert!(!tiny.is_above(&Limit::new(i64::MIN, 3).unwrap()));
}

#[test]
fn kinds_are_judged_one_by_one_in_the_order_of_the_limits() {
    let regression = RegressionConfig {
        limits: vec![
            (EventKind::Dr, Limit::percent(0)),
            (EventKind::Bc, Limit::percent(0)),
            (EventKind::Ir, Limit::percent(0)),
            (EventKind::Dw, Limit::percent(0)),
            (EventKind::Ir, Limit::percent(-1)),
            (EventKind::Ir, Limit::percent(50)),
        ],
        fail_fast: true,
    };
    let new = Costs::with_event_kinds(vec![
        (EventKind::Ir, 20),
        (EventKind::Dr, 30),
        (EventKind::Dw, 5),
        (EventKind::Ge, 1),
    ]);
    let old = Costs::with_event_kinds(vec![
        (EventKind::Ir, 10),
        (EventKind::Dr, 10),
        (EventKind::Dw, 5),
        (EventKind::Bc, 1),
    ]);
    let summary = CostsSummary::new(EitherOrBoth::Both((new, old)));
    let verdicts: Vec<(EventKind, Limit)> = regression
        .check(&summary)
        .into_iter()
        .map(|verdict| (verdict.event_kind, verdict.limit))
        .collect();
    assert_eq!(
        verdicts,
        vec![
            (EventKind::Dr, Limit::percent(0)),
            (EventKind::Ir, Limit::percent(0)),
            (EventKind::Ir, Limit::percent(50)),
        ]
    );
}

#[test]
fn a_run_against_itself_earns_no_verdict() {
    let limits: Vec<(EventKind, Limit)> = vec![
        (EventKind::Ir, Limit::percent(0)),
        (EventKind::Dr, Limit::percent(10)),
        (EventKind::EstimatedCycles, Limit::new(0, 7).unwrap()),
        (EventKind::L1hits, Limit::new(1, 1000).unwrap()),
        (EventKind::DLmw, Limit::percent(i64::MAX)),
    ];
    let regression = RegressionConfig {
        limits,
        fail_fast: false,
    };
    for raw in [
        [96u64, 24, 18, 6, 0, 2, 6, 0, 2],
        [0, 0, 0, 0, 0, 0, 0, 0, 0],
        [u64::MAX / 64, 0, 0, 7, 0, 0, 7, 0, 0],
    ] {
        let summary = CostsSummary::new(EitherOrBoth::Both((
            cachesim_costs(raw),
            cachesim_costs(raw),
        )));
        assert_eq!(regression.check(&summary), vec![]);
        for (_, diff) in summary.all_diffs() {
            match (diff.diff_pct(), diff.factor()) {
                (Some(Ratio::Finite { num: 0, den }), Some(Ratio::Finite { num, den: by })) => {
                    assert!(den > 0);
                    assert_eq!(num, by as i128);
                }
                other => panic!("{other:?}"),
            }
        }
    }
}

#[test]
fn the_default_policy() {
    let regression = RegressionConfig::default();
    assert_eq!(regression.limits, vec![(EventKind::Ir, Limit::percent(10))]);
    assert!(!regression.fail_fast);
}

#[test]
fn the_policy_of_a_configuration() {
    let mut config = callgrind_core::api::RegressionConfig::default();
    let regression = RegressionConfig::from(config.clone());
    assert_eq!(regression.limits, vec![(EventKind::Ir, Limit::percent(10))]);
    assert!(!regression.fail_fast);

    config
        .limits(vec![(EventKind::Dr, Limit::percent(5))])
        .fail_fast(true)
        .limits(vec![(EventKind::Ir, Limit::percent(-3))]);
    let regression = RegressionConfig::from(config);
    assert_eq!(
        regression.limits,
        vec![
            (EventKind::Dr, Limit::percent(5)),
            (EventKind::Ir, Limit::percent(-3))
        ]
    );
    assert!(regression.fail_fast);
}

#[test]
fn percentages() {
    assert_eq!(percentage(5, 0), Ratio::PosInfinity);
    assert_eq!(percentage(0, 5), Ratio::Finite { num: -500, den: 5 });
    assert!(!percentage(0, 5).is_above(&Limit::percent(-100)));
    assert!(!percentage(0, 5).is_below(&Limit::percent(-100)));
    assert_eq!(percentage(0, 0), Ratio::Finite { num: 0, den: 1 });
    assert_eq!(percentage(7, 7), Ratio::Finite { num: 0, den: 7 });
    assert_eq!(percentage(3, 2), Ratio::Finite { num: 100, den: 2 });
    assert_eq!(
        percentage(u64::MAX, 1),
        Ratio::Finite {
            num: 100 * (u64::MAX as i128 - 1),
            den: 1
        }
    );
    assert_eq!(
        percentage(0, u64::MAX),
        Ratio::Finite {
            num: -100 * (u64::MAX as i128),
            den: u64::MAX
        }
    );
}

#[test]
fn factors() {
    assert_eq!(factor(5, 0), Ratio::PosInfinity);
    assert_eq!(factor(0, 5), Ratio::Finite { num: 0, den: 5 });
    assert_eq!(factor(0, 0), Ratio::Finite { num: 1, den: 1 });
    assert_eq!(factor(10, 5), Ratio::Finite { num: 10, den: 5 });
    assert!(factor(10, 5).is_above(&Limit::percent(1)));
    assert!(!factor(10, 5).is_above(&Limit::percent(2)));
    assert!(!factor(10, 5).is_below(&Limit::percent(2)));
    assert!(factor(10, 5).is_below(&Limit::percent(3)));
}

#[test]
fn a_limit_that_is_no_number_is_never_crossed() {
    for num in [i64::MIN, -1, 0, 1, i64::MAX] {
        let no_number = Limit { num, den: 0 };
        assert!(!no_number.is_number());
        assert_eq!(flagged(no_number, 5, 0), vec![]);
        assert_eq!(flagged(no_number, 0, 5), vec![]);
        assert_eq!(flagged(no_number, 100, 1), vec![]);
        assert_eq!(flagged(no_number, 1, 100), vec![]);
        assert_eq!(flagged(no_number, 7, 7), vec![]);
    }
    assert!(Limit::percent(0).is_number());
    assert!(Limit::new(-3, 4).unwrap().is_number());
}

#[test]
fn limits_know_their_sign() {
    assert!(Limit::percent(-1).is_negative());
    assert!(!Limit::percent(0).is_negative());
    assert!(!Limit::percent(1).is_negative());
    assert!(Limit::new(-1, 1000).unwrap().is_negative());
}
