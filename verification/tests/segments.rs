use callgrind_core::costs::Costs;
use callgrind_core::error::Error;
use callgrind_core::event_kind::EventKind;
use callgrind_core::segments::{Summaries, Summary};
use callgrind_core::summary::{CostsDiff, CostsSummary, EitherOrBoth};

fn segment(origin: &str, ir: u64, dr: u64) -> (String, Costs) {
    (
        origin.to_owned(),
        Costs::with_event_kinds(vec![(EventKind::Ir, ir), (EventKind::Dr, dr)]),
    )
}

fn both(new: Option<u64>, old: Option<u64>) -> CostsDiff {
    CostsDiff { new, old }
}

#[test]
fn three_new_segments_against_one_old() {
    let summaries = Summaries::new(
        vec![
            segment("new.1", 10, 1),
            segment("new.2", 20, 2),
            segment("new.3", 30, 3),
        ],
        Some(vec![segment("old.1", 5, 7)]),
    );
    assert_eq!(summaries.data.len(), 3);
    assert!(summaries.has_multiple());

    assert_eq!(
        summaries.data[0].details,
        EitherOrBoth::Both(("new.1".to_owned(), "old.1".to_owned()))
    );
    assert_eq!(
        summaries.data[0].costs_summary.all_diffs(),
        &vec![
            (EventKind::Ir, both(Some(10), Some(5))),
            (EventKind::Dr, both(Some(1), Some(7))),
        ]
    );
    assert_eq!(
        summaries.data[1].details,
        EitherOrBoth::Left("new.2".to_owned())
    );
    assert_eq!(
        summaries.data[1].costs_summary.all_diffs(),
        &vec![
            (EventKind::Ir, both(Some(20), None)),
            (EventKind::Dr, both(Some(2), None)),
        ]
    );
    assert_eq!(
        summaries.data[2].details,
        EitherOrBoth::Left("new.3".to_owned())
    );
    assert_eq!(
        summaries.data[2].costs_summary.all_diffs(),
        &vec![
            (EventKind::Ir, both(Some(30), None)),
            (EventKind::Dr, both(Some(3), None)),
        ]
    );

    assert_eq!(
        summaries.total.all_diffs(),
        &vec![
            (EventKind::Ir, both(Some(60), Some(5))),
            (EventKind::Dr, both(Some(6), Some(7))),
        ]
    );
    let mut sum = CostsSummary::default();
    for summary in &summaries.data {
        sum.add(&summary.costs_summary);
    }
    assert_eq!(summaries.total, sum);
}

#[test]
fn more_old_segments_than_new_ones() {
    let summaries = Summaries::new(
        vec![segment("new.1", 10, 1)],
        Some(vec![segment("old.1", 5, 7), segment("old.2", 50, 70)]),
    );
    assert_eq!(summaries.data.len(), 2);
    assert_eq!(
        summaries.data[1].details,
        EitherOrBoth::Right("old.2".to_owned())
    );
    assert_eq!(
        summaries.data[1].costs_summary.all_diffs(),
        &vec![
            (EventKind::Ir, both(None, Some(50))),
            (EventKind::Dr, both(None, Some(70))),
        ]
    );
    assert_eq!(
        summaries.total.all_diffs(),
        &vec![
            (EventKind::Ir, both(Some(10), Some(55))),
            (EventKind::Dr, both(Some(1), Some(77))),
        ]
    );
}

#[test]
fn segments_are_paired_by_position() {
    let summaries = Summaries::new(
        vec![segment("a", 1, 0), segment("b", 2, 0)],
        Some(vec![segment("c", 3, 0), segment("d", 4, 0)]),
    );
    assert_eq!(summaries.data.len(), 2);
    assert_eq!(
        summaries.data[0].details,
        EitherOrBoth::Both(("a".to_owned(), "c".to_owned()))
    );
    assert_eq!(
        summaries.data[1].details,
        EitherOrBoth::Both(("b".to_owned(), "d".to_owned()))
    );
    assert_eq!(
        summaries.data[0].costs_summary.diff_by_kind(&EventKind::Ir),
        Some(both(Some(1), Some(3)))
    );
    assert_eq!(
        summaries.data[1].costs_summary.diff_by_kind(&EventKind::Ir),
        Some(both(Some(2), Some(4)))
    );
    assert_eq!(
        summaries.total.diff_by_kind(&EventKind::Ir),
        Some(both(Some(3), Some(7)))
    );
}

#[test]
fn a_run_without_a_baseline() {
    let summaries = Summaries::new(vec![segment("only", 10, 1)], None);
    assert_eq!(summaries.data.len(), 1);
    assert!(!summaries.has_multiple());
    assert_eq!(
        summaries.data[0].details,
        EitherOrBoth::Left("only".to_owned())
    );
    assert_eq!(summaries.total, summaries.data[0].costs_summary);

    let of_an_empty_baseline = Summaries::new(vec![segment("only", 10, 1)], Some(vec![]));
    assert_eq!(of_an_empty_baseline.data.len(), 1);
    assert_eq!(of_an_empty_baseline.total, summaries.total);
}

#[test]
fn a_baseline_without_a_run() {
    let summaries = Summaries::new(vec![], Some(vec![segment("old", 10, 1)]));
    assert_eq!(summaries.data.len(), 1);
    assert_eq!(
        summaries.data[0].details,
        EitherOrBoth::Right("old".to_owned())
    );
    assert_eq!(
        summaries.total.all_diffs(),
        &vec![
            (EventKind::Ir, both(None, Some(10))),
            (EventKind::Dr, both(None, Some(1))),
        ]
    );
}

#[test]
fn segments_with_different_kinds() {
    let summaries = Summaries::new(
        vec![
            (
                "one".to_owned(),
                Costs::with_event_kinds(vec![(EventKind::Ir, 1)]),
            ),
            (
                "two".to_owned(),
                Costs::with_event_kinds(vec![(EventKind::Dr, 2), (EventKind::Ir, 3)]),
            ),
        ],
        Some(vec![(
            "base".to_owned(),
            Costs::with_event_kinds(vec![(EventKind::Dw, 4)]),
        )]),
    );
    assert_eq!(
        summaries.total.all_diffs(),
        &vec![
            (EventKind::Ir, both(Some(4), None)),
            (EventKind::Dw, both(None, Some(4))),
            (EventKind::Dr, both(Some(2), None)),
        ]
    );
}

#[test]
fn no_segment_is_a_failure() {
    match Summaries::try_new(vec![], None) {
        Err(error) => assert_eq!(error, Error::EmptySegmentSet),
        Ok(_) => panic!("a run without segments was compared"),
    }
    match Summaries::try_new(vec![], Some(vec![])) {
        Err(error) => assert_eq!(error, Error::EmptySegmentSet),
        Ok(_) => panic!("a run without segments was compared"),
    }
    match Summaries::try_new(vec![segment("new", 1, 2)], None) {
        Ok(summaries) => assert_eq!(summaries.data.len(), 1),
        Err(error) => panic!("{error:?}"),
    }
}

#[test]
fn a_summary_is_what_it_is_made_of() {
    let costs_summary = CostsSummary::new(EitherOrBoth::Left(Costs::default()));
    let summary = Summary::new(EitherOrBoth::Left("here".to_owned()), costs_summary.clone());
    assert_eq!(summary.details, EitherOrBoth::Left("here".to_owned()));
    assert_eq!(summary.costs_summary, costs_summary);
}

#[test]
fn runs_that_can_be_compared() {
    let most = u64::MAX;
    assert!(Summaries::can_compare(&vec![], &None));
    assert!(Summaries::can_compare(&vec![segment("a", most, most)], &None));
    // the counts of a kind add up over the segments of a run
    assert!(!Summaries::can_compare(
        &vec![segment("a", most, 0), segment("b", 1, 0)],
        &None
    ));
    assert!(!Summaries::can_compare(
        &vec![segment("a", 1, 0), segment("b", 0, most - 1), segment("c", 0, 2)],
        &Some(vec![])
    ));
    assert!(Summaries::can_compare(
        &vec![segment("a", most - 1, 0), segment("b", 1, most)],
        &None
    ));
    // each run by itself, and each kind by itself
    assert!(Summaries::can_compare(
        &vec![segment("a", most, most)],
        &Some(vec![segment("b", most, most)])
    ));
    assert!(!Summaries::can_compare(
        &vec![segment("a", 1, 1)],
        &Some(vec![segment("b", most, 0), segment("c", 1, 0)])
    ));
    assert!(Summaries::can_compare(
        &vec![
            ("a".to_owned(), Costs::with_event_kinds(vec![(EventKind::Ir, most)])),
            ("b".to_owned(), Costs::with_event_kinds(vec![(EventKind::Dr, most)])),
        ],
        &None
    ));
}
