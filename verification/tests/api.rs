use callgrind_core::api::{
    black_box, Direction, FlamegraphConfig, FlamegraphKind, InternalOutputFormat, OutputFormat,
    RegressionConfig, Tool, ValgrindTool,
};
use callgrind_core::event_kind::EventKind;
use callgrind_core::ratio::Limit;

#[test]
fn a_flamegraph_configuration_sets_what_it_is_told() {
    let mut config = FlamegraphConfig::default();
    assert_eq!(config.0.kind, None);
    assert_eq!(config.0.title, None);
    config
        .kind(FlamegraphKind::Differential)
        .negate_differential(true)
        .normalize_differential(false)
        .event_kinds(vec![EventKind::EstimatedCycles, EventKind::Ir])
        .direction(Direction::BottomToTop)
        .title("My flamegraph title".to_owned())
        .subtitle("My flamegraph subtitle".to_owned());
    let inner = config.into_inner();
    assert_eq!(inner.kind, Some(FlamegraphKind::Differential));
    assert_eq!(inner.negate_differential, Some(true));
    assert_eq!(inner.normalize_differential, Some(false));
    assert_eq!(
        inner.event_kinds,
        Some(vec![EventKind::EstimatedCycles, EventKind::Ir])
    );
    assert_eq!(inner.direction, Some(Direction::BottomToTop));
    assert_eq!(inner.title, Some("My flamegraph title".to_owned()));
    assert_eq!(inner.subtitle, Some("My flamegraph subtitle".to_owned()));
}

#[test]
fn a_setting_leaves_the_others_alone() {
    let mut config = FlamegraphConfig::default();
    config.title("one".to_owned());
    config.kind(FlamegraphKind::All);
    assert_eq!(config.0.title, Some("one".to_owned()));
    assert_eq!(config.0.kind, Some(FlamegraphKind::All));
    assert_eq!(config.0.subtitle, None);
    assert_eq!(config.0.direction, None);
    config.kind(FlamegraphKind::Off);
    assert_eq!(config.0.kind, Some(FlamegraphKind::Off));
    assert_eq!(config.0.title, Some("one".to_owned()));
}

#[test]
fn an_output_format() {
    let mut format = OutputFormat::default();
    assert_eq!(
        format.0,
        InternalOutputFormat {
            truncate_description: None,
            show_all: None
        }
    );
    format.truncate_description(None);
    assert_eq!(format.0.truncate_description, Some(None));
    assert_eq!(format.0.show_all, None);
    format.truncate_description(Some(20)).show_all(true);
    assert_eq!(
        format.into_inner(),
        InternalOutputFormat {
            truncate_description: Some(Some(20)),
            show_all: Some(true)
        }
    );
}

#[test]
fn regression_limits_pile_up() {
    let mut config = RegressionConfig::default();
    assert_eq!(config.0.limits, vec![]);
    assert_eq!(config.0.fail_fast, None);
    config.limits(vec![(EventKind::Ir, Limit::percent(5))]);
    config.limits(vec![]);
    config
        .limits(vec![
            (EventKind::Dr, Limit::percent(-5)),
            (EventKind::Ir, Limit::percent(7)),
        ])
        .fail_fast(false);
    let inner = config.into_inner();
    assert_eq!(
        inner.limits,
        vec![
            (EventKind::Ir, Limit::percent(5)),
            (EventKind::Dr, Limit::percent(-5)),
            (EventKind::Ir, Limit::percent(7)),
        ]
    );
    assert_eq!(inner.fail_fast, Some(false));
}

#[test]
fn a_tool() {
    let mut tool = Tool::new(ValgrindTool::DHAT);
    assert_eq!(tool.0.kind, ValgrindTool::DHAT);
    assert_eq!(tool.0.enable, None);
    assert_eq!(tool.0.show_log, None);
    assert!(tool.0.raw_args.is_empty());
    tool.enable(true);
    assert_eq!(tool.0.enable, Some(true));
    assert_eq!(tool.0.kind, ValgrindTool::DHAT);
    tool.enable(false);
    assert_eq!(tool.clone().into_inner().enable, Some(false));
    assert_ne!(tool, Tool::new(ValgrindTool::DHAT));
    assert_ne!(Tool::new(ValgrindTool::Massif), Tool::new(ValgrindTool::DHAT));
}

#[test]
fn tools_by_their_names() {
    assert_eq!(ValgrindTool::Callgrind.id(), "callgrind");
    assert_eq!(ValgrindTool::Memcheck.id(), "memcheck");
    assert_eq!(ValgrindTool::Helgrind.id(), "helgrind");
    assert_eq!(ValgrindTool::DRD.id(), "drd");
    assert_eq!(ValgrindTool::Massif.id(), "massif");
    assert_eq!(ValgrindTool::DHAT.id(), "dhat");
    assert_eq!(ValgrindTool::BBV.id(), "exp-bbv");
}

#[test]
fn black_box_hands_its_argument_back() {
    assert_eq!(black_box(42), 42);
    assert_eq!(black_box("text"), "text");
    assert_eq!(black_box(vec![1, 2, 3]), vec![1, 2, 3]);
    assert_eq!(black_box(()), ());
}

#[test]
fn a_memcheck_tool_is_configured() {
    let mut tool = Tool::new(ValgrindTool::Memcheck);
    assert_eq!(tool.0.kind, ValgrindTool::Memcheck);
    assert_eq!(tool.0.kind.id(), "memcheck");
    assert_eq!(tool.0.enable, None);
    assert_eq!(tool.0.show_log, None);
    assert_eq!(tool.0.raw_args, Vec::<String>::new());
    tool.enable(true);
    assert_eq!(tool.into_inner().enable, Some(true));
}

#[test]
fn arguments_for_a_tool_pile_up() {
    let mut tool = Tool::new(ValgrindTool::DHAT);
    tool.args(vec!["--num-callers=5".to_owned(), "--mode=heap".to_owned()]);
    tool.args(vec![]);
    tool.enable(true).args(vec!["time-unit=B".to_owned()]);
    assert_eq!(
        tool.0.raw_args,
        vec![
            "--num-callers=5".to_owned(),
            "--mode=heap".to_owned(),
            "time-unit=B".to_owned()
        ]
    );
    assert_eq!(tool.0.enable, Some(true));
    assert_eq!(tool.0.kind, ValgrindTool::DHAT);
    assert_eq!(tool.0.show_log, None);
}
