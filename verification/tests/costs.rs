use callgrind_core::costs::Costs;
use callgrind_core::error::Error;
use callgrind_core::event_kind::EventKind;

fn cachesim_costs(costs: [u64; 9]) -> Costs {
    Costs::with_event_kinds(vec![
        (EventKind::Ir, costs[0]),
        (EventKind::Dr, costs[1]),
        (EventKind::Dw, costs[2]),
        (EventKind::I1mr, costs[3]),
        (EventKind::D1mr, costs[4]),
        (EventKind::D1mw, costs[5]),
        (EventKind::ILmr, costs[6]),
        (EventKind::DLmr, costs[7]),
        (EventKind::DLmw, costs[8]),
    ])
}

#[test]
fn with_event_kinds_keeps_the_order_given() {
    let costs = Costs::with_event_kinds(vec![
        (EventKind::Dw, 3),
        (EventKind::Ir, 1),
        (EventKind::Dr, 2),
    ]);
    assert_eq!(
        costs.iter(),
        vec![(EventKind::Dw, 3), (EventKind::Ir, 1), (EventKind::Dr, 2)]
    );
    assert_eq!(
        costs.event_kinds(),
        vec![EventKind::Dw, EventKind::Ir, EventKind::Dr]
    );
    assert_eq!(costs.len(), 3);
}

#[test]
fn with_event_kinds_of_nothing_is_empty() {
    let costs = Costs::with_event_kinds(vec![]);
    assert_eq!(costs.len(), 0);
    assert_eq!(costs.iter(), vec![]);
    assert_eq!(costs.cost_by_index(0), None);
    assert_eq!(costs.cost_by_kind(&EventKind::Ir), None);
}

#[test]
fn a_repeated_kind_keeps_its_first_place_and_its_last_cost() {
    let costs = Costs::with_event_kinds(vec![
        (EventKind::Ir, 1),
        (EventKind::Dr, 2),
        (EventKind::Ir, 5),
    ]);
    assert_eq!(costs.iter(), vec![(EventKind::Ir, 5), (EventKind::Dr, 2)]);
}

#[test]
fn vectors_in_different_orders_are_different() {
    let one = Costs::with_event_kinds(vec![(EventKind::Ir, 1), (EventKind::Dr, 2)]);
    let other = Costs::with_event_kinds(vec![(EventKind::Dr, 2), (EventKind::Ir, 1)]);
    let same = Costs::with_event_kinds(vec![(EventKind::Ir, 1), (EventKind::Dr, 2)]);
    assert_ne!(one, other);
    assert_eq!(one, same);
    assert_ne!(
        one,
        Costs::with_event_kinds(vec![(EventKind::Ir, 1), (EventKind::Dr, 3)])
    );
    assert_ne!(one, Costs::with_event_kinds(vec![(EventKind::Ir, 1)]));
}

#[test]
fn a_clone_holds_the_same_and_is_its_own() {
    let costs = cachesim_costs([1, 2, 3, 4, 5, 6, 7, 8, 9]);
    let mut copy = costs.clone();
    assert_eq!(costs, copy);
    copy.add_iter_str(&["1"]);
    assert_eq!(copy.cost_by_kind(&EventKind::Ir), Some(2));
    assert_eq!(costs.cost_by_kind(&EventKind::Ir), Some(1));
}

#[test]
fn lookup_by_index_and_by_kind() {
    let costs = cachesim_costs([10, 20, 30, 40, 50, 60, 70, 80, 90]);
    assert_eq!(costs.cost_by_index(0), Some(10));
    assert_eq!(costs.cost_by_index(8), Some(90));
    assert_eq!(costs.cost_by_index(9), None);
    assert_eq!(costs.cost_by_kind(&EventKind::D1mw), Some(60));
    assert_eq!(costs.cost_by_kind(&EventKind::Bc), None);
    assert_eq!(costs.try_cost_by_kind(&EventKind::DLmw), Ok(90));
    assert_eq!(
        costs.try_cost_by_kind(&EventKind::Bc),
        Err(Error::MissingMetric(EventKind::Bc))
    );
}

#[test]
fn default_is_the_instruction_counter_at_zero() {
    let costs = Costs::default();
    assert_eq!(costs.iter(), vec![(EventKind::Ir, 0)]);
    assert!(!costs.is_summarized());
}

#[test]
fn a_short_cost_line_leaves_the_rest_as_it_is() {
    let mut costs = Costs::with_event_kinds(vec![
        (EventKind::Ir, 1),
        (EventKind::Dr, 2),
        (EventKind::Dw, 3),
    ]);
    costs.add_iter_str(&["10", "20"]);
    assert_eq!(
        costs.iter(),
        vec![(EventKind::Ir, 11), (EventKind::Dr, 22), (EventKind::Dw, 3)]
    );
    costs.add_iter_str(&[]);
    assert_eq!(
        costs.iter(),
        vec![(EventKind::Ir, 11), (EventKind::Dr, 22), (EventKind::Dw, 3)]
    );
}

#[test]
fn tokens_past_the_last_counter_are_not_read() {
    let mut costs = Costs::with_event_kinds(vec![(EventKind::Ir, 1)]);
    costs.add_iter_str(&["4", "not a number", "7"]);
    assert_eq!(costs.iter(), vec![(EventKind::Ir, 5)]);
}

#[test]
fn cost_lines_add_up() {
    let mut costs = Costs::from_iter(&["Ir", "Dr"]).unwrap();
    costs.add_iter_str(&["3", "4"]);
    costs.add_iter_str(&["30", "40"]);
    costs.add_iter_str(&["+300"]);
    assert_eq!(costs.iter(), vec![(EventKind::Ir, 333), (EventKind::Dr, 44)]);
}

#[test]
fn add_is_by_position() {
    let mut costs = Costs::with_event_kinds(vec![
        (EventKind::Ir, 1),
        (EventKind::Dr, 2),
        (EventKind::Dw, 3),
    ]);
    let other = Costs::with_event_kinds(vec![(EventKind::Ir, 100), (EventKind::Dr, 200)]);
    costs.add(&other);
    assert_eq!(
        costs.iter(),
        vec![(EventKind::Ir, 101), (EventKind::Dr, 202), (EventKind::Dw, 3)]
    );
    let mut short = Costs::with_event_kinds(vec![(EventKind::Ir, 1)]);
    short.add(&costs);
    assert_eq!(short.iter(), vec![(EventKind::Ir, 102)]);
    assert_eq!(
        costs.iter(),
        vec![(EventKind::Ir, 101), (EventKind::Dr, 202), (EventKind::Dw, 3)]
    );
}

#[test]
fn add_reaches_the_largest_count() {
    let mut costs = Costs::with_event_kinds(vec![(EventKind::Ir, u64::MAX - 1)]);
    costs.add(&Costs::with_event_kinds(vec![(EventKind::Ir, 1)]));
    assert_eq!(costs.cost_by_kind(&EventKind::Ir), Some(u64::MAX));
}

#[test]
fn union_has_the_first_vector_first() {
    let first = Costs::with_event_kinds(vec![
        (EventKind::Dr, 1),
        (EventKind::Ir, 2),
        (EventKind::Bc, 3),
    ]);
    let second = Costs::with_event_kinds(vec![
        (EventKind::Ge, 4),
        (EventKind::Ir, 5),
        (EventKind::Dw, 6),
        (EventKind::Dr, 7),
    ]);
    assert_eq!(
        first.event_kinds_union(&second),
        vec![
            EventKind::Dr,
            EventKind::Ir,
            EventKind::Bc,
            EventKind::Ge,
            EventKind::Dw
        ]
    );
    assert_eq!(
        second.event_kinds_union(&first),
        vec![
            EventKind::Ge,
            EventKind::Ir,
            EventKind::Dw,
            EventKind::Dr,
            EventKind::Bc
        ]
    );
    assert_eq!(first.event_kinds_union(&first), first.event_kinds());
    assert_eq!(
        first.event_kinds_union(&Costs::with_event_kinds(vec![])),
        first.event_kinds()
    );
}

#[test]
fn from_the_names_of_an_events_line() {
    let costs = Costs::from_iter(&["Ir", "Dr", "Dw", "I1mr", "sysCount", "Ir"]).unwrap();
    assert_eq!(
        costs.iter(),
        vec![
            (EventKind::Ir, 0),
            (EventKind::Dr, 0),
            (EventKind::Dw, 0),
            (EventKind::I1mr, 0),
            (EventKind::SysCount, 0)
        ]
    );
    assert_eq!(Costs::from_iter(&[]).unwrap().len(), 0);
}

#[test]
fn an_unknown_name_is_a_failure() {
    assert_eq!(
        Costs::from_iter(&["Ir", "Nope"]),
        Err(Error::UnknownEventKind)
    );
    assert_eq!(
        Costs::from_iter(&["EstimatedCycles"]),
        Err(Error::UnknownEventKind)
    );
    assert_eq!(Costs::from_iter(&["ir"]), Err(Error::UnknownEventKind));
}

#[test]
fn what_can_be_added_is_told_beforehand() {
    let costs = Costs::with_event_kinds(vec![(EventKind::Ir, u64::MAX - 1), (EventKind::Dr, 5)]);
    assert!(costs.can_add(&Costs::with_event_kinds(vec![(EventKind::Ir, 1)])));
    assert!(!costs.can_add(&Costs::with_event_kinds(vec![(EventKind::Ir, 2)])));
    assert!(costs.can_add(&Costs::with_event_kinds(vec![])));
    // by position, whatever the kinds, and what is past the last counter is dropped
    assert!(costs.can_add(&Costs::with_event_kinds(vec![
        (EventKind::Dw, 0),
        (EventKind::Ir, u64::MAX - 5),
        (EventKind::Dr, u64::MAX),
    ])));
    assert!(!costs.can_add(&Costs::with_event_kinds(vec![
        (EventKind::Ir, 0),
        (EventKind::Dr, u64::MAX - 4),
    ])));
}

#[test]
fn a_cost_line_that_can_be_added_is_told_beforehand() {
    let costs = Costs::with_event_kinds(vec![(EventKind::Ir, u64::MAX - 1), (EventKind::Dr, 5)]);
    assert!(costs.can_add_iter_str(&[]));
    assert!(costs.can_add_iter_str(&["1"]));
    assert!(costs.can_add_iter_str(&["+1", "18446744073709551610"]));
    assert!(costs.can_add_iter_str(&["0", "0", "no number, and not read"]));
    assert!(!costs.can_add_iter_str(&["2"]));
    assert!(!costs.can_add_iter_str(&["1", "18446744073709551611"]));
    assert!(!costs.can_add_iter_str(&["x"]));
    assert!(!costs.can_add_iter_str(&["1", ""]));
    assert!(!costs.can_add_iter_str(&["18446744073709551616"]));
}
