use callgrind_core::error::Error;
use callgrind_core::event_kind::{EventKind, KIND_COUNT};

#[test]
fn every_code_has_its_kind_and_back() {
    for code in 0..KIND_COUNT {
        let kind = EventKind::from_code(code).unwrap();
        assert_eq!(kind.code(), code);
    }
    assert_eq!(EventKind::from_code(KIND_COUNT), None);
    assert_eq!(EventKind::from_code(255), None);
    assert_eq!(EventKind::from_code(0), Some(EventKind::Ir));
    assert_eq!(EventKind::from_code(28), Some(EventKind::SpLoss2));
}

#[test]
fn the_five_derived_kinds() {
    let derived: Vec<EventKind> = (0..KIND_COUNT)
        .map(|code| EventKind::from_code(code).unwrap())
        .filter(|kind| kind.is_derived())
        .collect();
    assert_eq!(
        derived,
        vec![
            EventKind::L1hits,
            EventKind::LLhits,
            EventKind::RamHits,
            EventKind::TotalRW,
            EventKind::EstimatedCycles
        ]
    );
}

#[test]
fn the_names_of_the_profiler() {
    assert_eq!(EventKind::from_name("Ir"), Ok(EventKind::Ir));
    assert_eq!(EventKind::from_name("Dr"), Ok(EventKind::Dr));
    assert_eq!(EventKind::from_name("DLmw"), Ok(EventKind::DLmw));
    assert_eq!(EventKind::from_name("sysCount"), Ok(EventKind::SysCount));
    assert_eq!(EventKind::from_name("sysTime"), Ok(EventKind::SysTime));
    assert_eq!(EventKind::from_name("sysCpuTime"), Ok(EventKind::SysCpuTime));
    assert_eq!(EventKind::from_name("SpLoss2"), Ok(EventKind::SpLoss2));
    let mut named = 0;
    for code in 0..KIND_COUNT {
        let kind = EventKind::from_code(code).unwrap();
        if !kind.is_derived() {
            named += 1;
        }
    }
    assert_eq!(named, 24);
}

#[test]
fn names_that_are_none() {
    assert_eq!(EventKind::from_name(""), Err(Error::UnknownEventKind));
    assert_eq!(EventKind::from_name("IR"), Err(Error::UnknownEventKind));
    assert_eq!(EventKind::from_name("Ir "), Err(Error::UnknownEventKind));
    assert_eq!(EventKind::from_name("SysCount"), Err(Error::UnknownEventKind));
    assert_eq!(EventKind::from_name("L1hits"), Err(Error::UnknownEventKind));
    assert_eq!(
        EventKind::from_name("EstimatedCycles"),
        Err(Error::UnknownEventKind)
    );
}

#[test]
fn labels_for_a_reader() {
    assert_eq!(EventKind::Ir.to_string(), "Instructions");
    assert_eq!(EventKind::L1hits.to_string(), "L1 Hits");
    assert_eq!(EventKind::LLhits.to_string(), "L2 Hits");
    assert_eq!(EventKind::RamHits.to_string(), "RAM Hits");
    assert_eq!(EventKind::TotalRW.to_string(), "Total read+write");
    assert_eq!(EventKind::EstimatedCycles.to_string(), "Estimated Cycles");
    assert_eq!(EventKind::SysCount.to_string(), "SysCount");
    assert_eq!(EventKind::Dr.to_string(), "Dr");
    assert_eq!(EventKind::SpLoss1.to_string(), "SpLoss1");
}
