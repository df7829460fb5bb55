//! What a benchmark author configures: flamegraphs, the output, regression
//! thresholds and additional tools. Each setting is optional; one that is
//! not set leaves the default to whoever runs the benchmark.

use crate::event_kind::EventKind;
use crate::ratio::Limit;
use vstd::prelude::*;

verus! {

/// Which flamegraphs are made.
#[derive(Debug, Clone, Copy, PartialEq, Eq, Structural)]
pub enum FlamegraphKind {
    /// One flamegraph of the new run.
    Regular,
    /// One flamegraph of the difference between the two runs.
    Differential,
    /// Both of them.
    All,
    /// No flamegraph at all.
    Off,
}

/// The direction in which a flamegraph grows.
#[derive(Debug, Clone, Copy, PartialEq, Eq, Structural)]
pub enum Direction {
    /// From the top down.
    TopToBottom,
    /// From the bottom up.
    BottomToTop,
}

/// The tools of valgrind that a benchmark can be run under.
#[derive(Debug, Clone, Copy, PartialEq, Eq, Structural)]
pub enum ValgrindTool {
    /// The call graph and cache profiler.
    Callgrind,
    /// The memory error detector.
    Memcheck,
    /// A thread error detector.
    Helgrind,
    /// Another thread error detector.
    DRD,
    /// The heap profiler.
    Massif,
    /// The dynamic heap analysis tool.
    DHAT,
    /// The basic block vector generator.
    BBV,
}

impl ValgrindTool {
    /// The name by which valgrind knows the tool.
    pub open spec fn id_spec(&self) -> Seq<char> {
        match self {
            ValgrindTool::Callgrind => "callgrind"@,
            ValgrindTool::Memcheck => "memcheck"@,
            ValgrindTool::Helgrind => "helgrind"@,
            ValgrindTool::DRD => "drd"@,
            ValgrindTool::Massif => "massif"@,
            ValgrindTool::DHAT => "dhat"@,
            ValgrindTool::BBV => "exp-bbv"@,
        }
    }

    /// The name by which valgrind knows the tool.
    pub fn id(&self) -> (id: &'static str)
        ensures
            id@ == self.id_spec(),
    {
        match self {
            ValgrindTool::Callgrind => "callgrind",
            ValgrindTool::Memcheck => "memcheck",
            ValgrindTool::Helgrind => "helgrind",
            ValgrindTool::DRD => "drd",
            ValgrindTool::Massif => "massif",
            ValgrindTool::DHAT => "dhat",
            ValgrindTool::BBV => "exp-bbv",
        }
    }
}

/// The settings of the flamegraphs.
#[derive(Debug, Clone, PartialEq, Eq)]
pub struct InternalFlamegraphConfig {
    /// Which flamegraphs are made.
    pub kind: Option<FlamegraphKind>,
    /// Whether the differential flamegraph shows what will be rather than
    /// what was.
    pub negate_differential: Option<bool>,
    /// Whether the first profile is scaled to the event count of the second.
    pub normalize_differential: Option<bool>,
    /// The kinds for which a flamegraph is made.
    pub event_kinds: Option<Vec<EventKind>>,
    /// The direction in which the flamegraph grows.
    pub direction: Option<Direction>,
    /// The title in place of the default one.
    pub title: Option<String>,
    /// The subtitle in place of the default one.
    pub subtitle: Option<String>,
}

/// The settings of the output.
#[derive(Debug, Clone, Copy, PartialEq, Eq, Structural)]
pub struct InternalOutputFormat {
    /// The length to which descriptions are cut: `Some(None)` for no cut.
    pub truncate_description: Option<Option<usize>>,
    /// Whether all metrics are shown.
    pub show_all: Option<bool>,
}

/// The settings of the regression checks.
#[derive(Debug, Clone, PartialEq, Eq)]
pub struct InternalRegressionConfig {
    /// The kinds that are checked, each with its threshold in percent.
    pub limits: Vec<(EventKind, Limit)>,
    /// Whether the run stops at the first regression.
    pub fail_fast: Option<bool>,
}

/// The settings of an additional tool.
#[derive(Debug, Clone, PartialEq, Eq)]
pub struct InternalTool {
    /// The tool.
    pub kind: ValgrindTool,
    /// Whether the tool is run.
    pub enable: Option<bool>,
    /// Whether the tool's log is shown.
    pub show_log: Option<bool>,
    /// Arguments that are handed to the tool as they are.
    pub raw_args: Vec<String>,
}

/// The configuration of the flamegraphs that are made of a benchmark.
#[derive(Debug, Clone)]
pub struct FlamegraphConfig(pub InternalFlamegraphConfig);

/// The configuration of what a benchmark run prints.
#[derive(Debug, Clone)]
pub struct OutputFormat(pub InternalOutputFormat);

/// The configuration of the regression checks: a regression is a change of
/// an event kind by more than its threshold in percent, upwards for a
/// threshold at or above zero and downwards for one below.
#[derive(Debug, Clone)]
pub struct RegressionConfig(pub InternalRegressionConfig);

/// The configuration of a tool that is run in addition to callgrind.
#[derive(Debug, Clone, PartialEq, Eq)]
pub struct Tool(pub InternalTool);

impl Default for FlamegraphConfig {
    /// Nothing is set.
    fn default() -> (config: FlamegraphConfig)
        ensures
            config.0.kind.is_none(),
            config.0.negate_differential.is_none(),
            config.0.normalize_differential.is_none(),
            config.0.event_kinds.is_none(),
            config.0.direction.is_none(),
            config.0.title.is_none(),
            config.0.subtitle.is_none(),
    {
        FlamegraphConfig(
            InternalFlamegraphConfig {
                kind: None,
                negate_differential: None,
                normalize_differential: None,
                event_kinds: None,
                direction: None,
                title: None,
                subtitle: None,
            },
        )
    }
}

impl Default for OutputFormat {
    /// Nothing is set.
    fn default() -> (format: OutputFormat)
        ensures
            format.0 == (InternalOutputFormat { truncate_description: None, show_all: None }),
    {
        OutputFormat(InternalOutputFormat { truncate_description: None, show_all: None })
    }
}

impl Default for RegressionConfig {
    /// No threshold, and nothing said on how a run ends.
    fn default() -> (config: RegressionConfig)
        ensures
            config.0.limits@ == Seq::<(EventKind, Limit)>::empty(),
            config.0.fail_fast.is_none(),
    {
        RegressionConfig(InternalRegressionConfig { limits: Vec::new(), fail_fast: None })
    }
}

impl FlamegraphConfig {
    /// Sets which flamegraphs are made.
    pub fn kind(&mut self, kind: FlamegraphKind) -> (config: &mut Self)
        ensures
            config.0.kind == Some(kind),
            config.0.negate_differential == old(self).0.negate_differential,
            config.0.normalize_differential == old(self).0.normalize_differential,
            config.0.event_kinds == old(self).0.event_kinds,
            config.0.direction == old(self).0.direction,
            config.0.title == old(self).0.title,
            config.0.subtitle == old(self).0.subtitle,
            *final(self) == *final(config),
    {
        self.0.kind = Some(kind);
        self
    }

    /// Sets whether the differential flamegraph is negated: it then shows
    /// what will happen rather than what has happened.
    pub fn negate_differential(&mut self, negate_differential: bool) -> (config: &mut Self)
        ensures
            config.0.kind == old(self).0.kind,
            config.0.negate_differential == Some(negate_differential),
            config.0.normalize_differential == old(self).0.normalize_differential,
            config.0.event_kinds == old(self).0.event_kinds,
            config.0.direction == old(self).0.direction,
            config.0.title == old(self).0.title,
            config.0.subtitle == old(self).0.subtitle,
            *final(self) == *final(config),
    {
        self.0.negate_differential = Some(negate_differential);
        self
    }

    /// Sets whether the differential flamegraph is normalized: the event
    /// count of the first profile is then made to match the second.
    pub fn normalize_differential(&mut self, normalize_differential: bool) -> (config: &mut Self)
        ensures
            config.0.kind == old(self).0.kind,
            config.0.negate_differential == old(self).0.negate_differential,
            config.0.normalize_differential == Some(normalize_differential),
            config.0.event_kinds == old(self).0.event_kinds,
            config.0.direction == old(self).0.direction,
            config.0.title == old(self).0.title,
            config.0.subtitle == old(self).0.subtitle,
            *final(self) == *final(config),
    {
        self.0.normalize_differential = Some(normalize_differential);
        self
    }

    /// Sets the kinds for which a flamegraph is made, one flamegraph each.
    pub fn event_kinds(&mut self, event_kinds: Vec<EventKind>) -> (config: &mut Self)
        ensures
            config.0.kind == old(self).0.kind,
            config.0.negate_differential == old(self).0.negate_differential,
            config.0.normalize_differential == old(self).0.normalize_differential,
            config.0.event_kinds == Some(event_kinds),
            config.0.direction == old(self).0.direction,
            config.0.title == old(self).0.title,
            config.0.subtitle == old(self).0.subtitle,
            *final(self) == *final(config),
    {
        self.0.event_kinds = Some(event_kinds);
        self
    }

    /// Sets the direction in which the flamegraph grows.
    pub fn direction(&mut self, direction: Direction) -> (config: &mut Self)
        ensures
            config.0.kind == old(self).0.kind,
            config.0.negate_differential == old(self).0.negate_differential,
            config.0.normalize_differential == old(self).0.normalize_differential,
            config.0.event_kinds == old(self).0.event_kinds,
            config.0.direction == Some(direction),
            config.0.title == old(self).0.title,
            config.0.subtitle == old(self).0.subtitle,
            *final(self) == *final(config),
    {
        self.0.direction = Some(direction);
        self
    }

    /// Sets the title of the flamegraph.
    pub fn title(&mut self, title: String) -> (config: &mut Self)
        ensures
            config.0.kind == old(self).0.kind,
            config.0.negate_differential == old(self).0.negate_differential,
            config.0.normalize_differential == old(self).0.normalize_differential,
            config.0.event_kinds == old(self).0.event_kinds,
            config.0.direction == old(self).0.direction,
            config.0.title == Some(title),
            config.0.subtitle == old(self).0.subtitle,
            *final(self) == *final(config),
    {
        self.0.title = Some(title);
        self
    }

    /// Sets the subtitle of the flamegraph.
    pub fn subtitle(&mut self, subtitle: String) -> (config: &mut Self)
        ensures
            config.0.kind == old(self).0.kind,
            config.0.negate_differential == old(self).0.negate_differential,
            config.0.normalize_differential == old(self).0.normalize_differential,
            config.0.event_kinds == old(self).0.event_kinds,
            config.0.direction == old(self).0.direction,
            config.0.title == old(self).0.title,
            config.0.subtitle == Some(subtitle),
            *final(self) == *final(config),
    {
        self.0.subtitle = Some(subtitle);
        self
    }

    /// The settings.
    pub fn into_inner(self) -> (inner: InternalFlamegraphConfig)
        ensures
            inner == self.0,
    {
        self.0
    }
}

impl OutputFormat {
    /// Sets the length to which the description of a benchmark is cut in
    /// the output, not counting the ellipsis; `None` for no cut at all.
    pub fn truncate_description(&mut self, value: Option<usize>) -> (format: &mut Self)
        ensures
            format.0 == (InternalOutputFormat {
                truncate_description: Some(value),
                show_all: old(self).0.show_all,
            }),
            *final(self) == *final(format),
    {
        self.0.truncate_description = Some(value);
        self
    }

    /// Sets whether all metrics are shown.
    pub fn show_all(&mut self, value: bool) -> (format: &mut Self)
        ensures
            format.0 == (InternalOutputFormat {
                truncate_description: old(self).0.truncate_description,
                show_all: Some(value),
            }),
            *final(self) == *final(format),
    {
        self.0.show_all = Some(value);
        self
    }

    /// The settings.
    pub fn into_inner(self) -> (inner: InternalOutputFormat)
        ensures
            inner == self.0,
    {
        self.0
    }
}

impl RegressionConfig {
    /// Adds thresholds: kinds, each with the percentage beyond which a
    /// change of it is a regression. They are checked after those that are
    /// there already, in the order given.
    pub fn limits(&mut self, targets: Vec<(EventKind, Limit)>) -> (config: &mut Self)
        ensures
            config.0.limits@ == old(self).0.limits@ + targets@,
            config.0.fail_fast == old(self).0.fail_fast,
            *final(self) == *final(config),
    {
        let mut targets = targets;
        self.0.limits.append(&mut targets);
        self
    }

    /// Sets whether the benchmark run stops at the first regression. Where
    /// it does not, the run fails at its end if there was one.
    pub fn fail_fast(&mut self, value: bool) -> (config: &mut Self)
        ensures
            config.0.limits == old(self).0.limits,
            config.0.fail_fast == Some(value),
            *final(self) == *final(config),
    {
        self.0.fail_fast = Some(value);
        self
    }

    /// The settings.
    pub fn into_inner(self) -> (inner: InternalRegressionConfig)
        ensures
            inner == self.0,
    {
        self.0
    }
}

impl Tool {
    /// The configuration of `tool`, with nothing else set.
    pub fn new(tool: ValgrindTool) -> (config: Tool)
        ensures
            config.0.kind == tool,
            config.0.enable.is_none(),
            config.0.show_log.is_none(),
            config.0.raw_args@ == Seq::<String>::empty(),
    {
        Tool(InternalTool { kind: tool, enable: None, show_log: None, raw_args: Vec::new() })
    }

    /// Sets whether the tool is run.
    pub fn enable(&mut self, value: bool) -> (config: &mut Self)
        ensures
            config.0.kind == old(self).0.kind,
            config.0.enable == Some(value),
            config.0.show_log == old(self).0.show_log,
            config.0.raw_args == old(self).0.raw_args,
            *final(self) == *final(config),
    {
        self.0.enable = Some(value);
        self
    }

    /// Adds arguments that are handed to the tool on its command line. They
    /// are kept as they are given, after those that are there already and in
    /// the order given.
    pub fn args(&mut self, args: Vec<String>) -> (config: &mut Self)
        ensures
            config.0.kind == old(self).0.kind,
            config.0.enable == old(self).0.enable,
            config.0.show_log == old(self).0.show_log,
            config.0.raw_args@ == old(self).0.raw_args@ + args@,
            *final(self) == *final(config),
    {
        let mut args = args;
        self.0.raw_args.append(&mut args);
        self
    }

    /// The settings.
    pub fn into_inner(self) -> (inner: InternalTool)
        ensures
            inner == self.0,
    {
        self.0
    }
}

/// `std::hint::black_box`: the value itself, handed through in a way that
/// the optimizer cannot see through.
#[verifier::external_body]
fn opaque_to_optimizer<T>(value: T) -> (same: T)
    ensures
        same == value,
{
    std::hint::black_box(value)
}

/// Hands `dummy` back in a way that keeps the compiler from optimizing the
/// computation of it away.
#[inline]
pub fn black_box<T>(dummy: T) -> (same: T)
    ensures
        same == dummy,
{
    opaque_to_optimizer(dummy)
}

} // verus!
