use callgrind_core::positions::{Calls, PositionType, Positions};

#[test]
fn position_types_by_name() {
    assert_eq!(PositionType::from_name("instr"), Some(PositionType::Instr));
    assert_eq!(PositionType::from_name("addr"), Some(PositionType::Instr));
    assert_eq!(PositionType::from_name("line"), Some(PositionType::Line));
    assert_eq!(PositionType::from_name("INSTR"), Some(PositionType::Instr));
    assert_eq!(PositionType::from_name("Addr"), Some(PositionType::Instr));
    assert_eq!(PositionType::from_name("LiNe"), Some(PositionType::Line));
    assert_eq!(PositionType::from_name(""), None);
    assert_eq!(PositionType::from_name("lines"), None);
    assert_eq!(PositionType::from_name(" line"), None);
    assert_eq!(PositionType::from_name("address"), None);
}

#[test]
fn position_types_by_name_in_lower_case() {
    assert_eq!(
        PositionType::from_lowercase(&"instr".to_owned()),
        Some(PositionType::Instr)
    );
    assert_eq!(
        PositionType::from_lowercase(&"addr".to_owned()),
        Some(PositionType::Instr)
    );
    assert_eq!(
        PositionType::from_lowercase(&"line".to_owned()),
        Some(PositionType::Line)
    );
    assert_eq!(PositionType::from_lowercase(&"Line".to_owned()), None);
    assert_eq!(PositionType::from_lowercase(&"INSTR".to_owned()), None);
}

#[test]
fn default_positions_are_the_line_at_zero() {
    let positions = Positions::default();
    assert_eq!(positions.len(), 1);
    assert!(!positions.is_empty());
    assert_eq!(
        positions.position_by_index(0),
        Some((PositionType::Line, 0))
    );
    assert_eq!(positions.position_by_index(1), None);
}

#[test]
fn positions_as_the_profiler_declares_them() {
    let positions = Positions::from_iter(&["instr", "line"]).unwrap();
    assert_eq!(positions.len(), 2);
    assert_eq!(
        positions.position_by_index(0),
        Some((PositionType::Instr, 0))
    );
    assert_eq!(
        positions.position_by_index(1),
        Some((PositionType::Line, 0))
    );

    let other_way = Positions::from_iter(&["Line", "Addr", "line", "instr"]).unwrap();
    assert_eq!(other_way.len(), 2);
    assert_eq!(
        other_way.position_by_index(0),
        Some((PositionType::Line, 0))
    );
    assert_eq!(
        other_way.position_by_index(1),
        Some((PositionType::Instr, 0))
    );
    assert_ne!(positions, other_way);

    let none = Positions::from_iter(&[]).unwrap();
    assert!(none.is_empty());
    assert_eq!(none.len(), 0);

    assert_eq!(Positions::from_iter(&["line", "column"]), None);
}

#[test]
fn positions_are_set_not_added() {
    let mut positions = Positions::from_iter(&["instr", "line"]).unwrap();
    positions.set_iter_str(&["0x10", "20"]);
    assert_eq!(
        positions.position_by_index(0),
        Some((PositionType::Instr, 16))
    );
    assert_eq!(
        positions.position_by_index(1),
        Some((PositionType::Line, 20))
    );
    positions.set_iter_str(&["7"]);
    assert_eq!(
        positions.position_by_index(0),
        Some((PositionType::Instr, 7))
    );
    assert_eq!(
        positions.position_by_index(1),
        Some((PositionType::Line, 20))
    );
    positions.set_iter_str(&["0xffffffffffffffff", "0x0", "no position"]);
    assert_eq!(
        positions.position_by_index(0),
        Some((PositionType::Instr, u64::MAX))
    );
    assert_eq!(
        positions.position_by_index(1),
        Some((PositionType::Line, 0))
    );
    let copy = positions.clone();
    positions.set_iter_str(&[]);
    assert_eq!(positions, copy);
}

#[test]
fn a_call_record() {
    let positions = Positions::from_iter(&["instr", "line"]).unwrap();
    let calls = Calls::from(&["3", "0x400", "17"], positions);
    assert_eq!(calls.amount(), 3);
    assert_eq!(
        calls.positions().position_by_index(0),
        Some((PositionType::Instr, 0x400))
    );
    assert_eq!(
        calls.positions().position_by_index(1),
        Some((PositionType::Line, 17))
    );

    let only_the_amount = Calls::from(&["9"], Positions::default());
    assert_eq!(only_the_amount.amount(), 9);
    assert_eq!(only_the_amount.positions(), &Positions::default());

    let default = Calls::default();
    assert_eq!(default.amount(), 0);
    assert_eq!(default.positions(), &Positions::default());
    assert_ne!(default, only_the_amount);
}
