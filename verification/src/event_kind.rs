//! The closed catalog of event kinds.

use crate::error::Error;
use vstd::prelude::*;
use vstd::string::StringExecFns;

verus! {

/// Whether `text` reads `word`.
fn same_text(text: &String, word: &str) -> (same: bool)
    ensures
        same == (text@ == word@),
{
    *text == word.to_owned()
}

/// A metric of a profiling run: counted by the profiler, or derived from the
/// cache simulation's counters.
#[derive(Debug, Clone, Copy, PartialEq, Eq, Hash, Structural)]
pub enum EventKind {
    /// Instructions executed (instruction cache reads).
    Ir,
    /// System calls made.
    SysCount,
    /// Time spent in system calls.
    SysTime,
    /// Cpu time spent in system calls.
    SysCpuTime,
    /// Global bus events.
    Ge,
    /// Data cache reads.
    Dr,
    /// Data cache writes.
    Dw,
    /// First-level instruction cache read misses.
    I1mr,
    /// Last-level cache instruction read misses.
    ILmr,
    /// First-level data cache read misses.
    D1mr,
    /// Last-level cache data read misses.
    DLmr,
    /// First-level data cache write misses.
    D1mw,
    /// Last-level cache data write misses.
    DLmw,
    /// Derived: accesses served by the first-level caches.
    L1hits,
    /// Derived: accesses served by the last-level cache.
    LLhits,
    /// Derived: accesses served by main memory.
    RamHits,
    /// Derived: all memory reads and writes.
    TotalRW,
    /// Derived: the estimate of cpu cycles.
    EstimatedCycles,
    /// Conditional branches executed.
    Bc,
    /// Conditional branches mispredicted.
    Bcm,
    /// Indirect branches executed.
    Bi,
    /// Indirect branches mispredicted.
    Bim,
    /// Dirty misses caused by instruction reads.
    ILdmr,
    /// Dirty misses caused by data reads.
    DLdmr,
    /// Dirty misses caused by data writes.
    DLdmw,
    /// Bad temporal locality, first-level caches.
    AcCost1,
    /// Bad temporal locality, last-level cache.
    AcCost2,
    /// Bad spatial locality, first-level caches.
    SpLoss1,
    /// Bad spatial locality, last-level cache.
    SpLoss2,
}

/// The number of event kinds.
pub const KIND_COUNT: u8 = 29;

impl EventKind {
    /// The position of the kind in the catalog.
    pub open spec fn code_spec(self) -> u8 {
        match self {
            EventKind::Ir => 0,
            EventKind::SysCount => 1,
            EventKind::SysTime => 2,
            EventKind::SysCpuTime => 3,
            EventKind::Ge => 4,
            EventKind::Dr => 5,
            EventKind::Dw => 6,
            EventKind::I1mr => 7,
            EventKind::ILmr => 8,
            EventKind::D1mr => 9,
            EventKind::DLmr => 10,
            EventKind::D1mw => 11,
            EventKind::DLmw => 12,
            EventKind::L1hits => 13,
            EventKind::LLhits => 14,
            EventKind::RamHits => 15,
            EventKind::TotalRW => 16,
            EventKind::EstimatedCycles => 17,
            EventKind::Bc => 18,
            EventKind::Bcm => 19,
            EventKind::Bi => 20,
            EventKind::Bim => 21,
            EventKind::ILdmr => 22,
            EventKind::DLdmr => 23,
            EventKind::DLdmw => 24,
            EventKind::AcCost1 => 25,
            EventKind::AcCost2 => 26,
            EventKind::SpLoss1 => 27,
            EventKind::SpLoss2 => 28,
        }
    }

    /// The kind at a position of the catalog; positions past its end stand
    /// for the first kind.
    pub open spec fn from_code_spec(code: u8) -> EventKind {
        match code {
            1 => EventKind::SysCount,
            2 => EventKind::SysTime,
            3 => EventKind::SysCpuTime,
            4 => EventKind::Ge,
            5 => EventKind::Dr,
            6 => EventKind::Dw,
            7 => EventKind::I1mr,
            8 => EventKind::ILmr,
            9 => EventKind::D1mr,
            10 => EventKind::DLmr,
            11 => EventKind::D1mw,
            12 => EventKind::DLmw,
            13 => EventKind::L1hits,
            14 => EventKind::LLhits,
            15 => EventKind::RamHits,
            16 => EventKind::TotalRW,
            17 => EventKind::EstimatedCycles,
            18 => EventKind::Bc,
            19 => EventKind::Bcm,
            20 => EventKind::Bi,
            21 => EventKind::Bim,
            22 => EventKind::ILdmr,
            23 => EventKind::DLdmr,
            24 => EventKind::DLdmw,
            25 => EventKind::AcCost1,
            26 => EventKind::AcCost2,
            27 => EventKind::SpLoss1,
            28 => EventKind::SpLoss2,
            _ => EventKind::Ir,
        }
    }

    /// The position of the kind in the catalog.
    #[verifier::when_used_as_spec(code_spec)]
    pub fn code(self) -> (code: u8)
        ensures
            code == self.code_spec(),
            code < KIND_COUNT,
            EventKind::from_code_spec(code) == self,
    {
        match self {
            EventKind::Ir => 0,
            EventKind::SysCount => 1,
            EventKind::SysTime => 2,
            EventKind::SysCpuTime => 3,
            EventKind::Ge => 4,
            EventKind::Dr => 5,
            EventKind::Dw => 6,
            EventKind::I1mr => 7,
            EventKind::ILmr => 8,
            EventKind::D1mr => 9,
            EventKind::DLmr => 10,
            EventKind::D1mw => 11,
            EventKind::DLmw => 12,
            EventKind::L1hits => 13,
            EventKind::LLhits => 14,
            EventKind::RamHits => 15,
            EventKind::TotalRW => 16,
            EventKind::EstimatedCycles => 17,
            EventKind::Bc => 18,
            EventKind::Bcm => 19,
            EventKind::Bi => 20,
            EventKind::Bim => 21,
            EventKind::ILdmr => 22,
            EventKind::DLdmr => 23,
            EventKind::DLdmw => 24,
            EventKind::AcCost1 => 25,
            EventKind::AcCost2 => 26,
            EventKind::SpLoss1 => 27,
            EventKind::SpLoss2 => 28,
        }
    }

    /// The kind at a position of the catalog, if the catalog is that long.
    pub fn from_code(code: u8) -> (kind: Option<EventKind>)
        ensures
            code < KIND_COUNT ==> kind == Some(EventKind::from_code_spec(code)),
            code >= KIND_COUNT ==> kind.is_none(),
            kind matches Some(k) ==> k.code_spec() == code,
    {
        match code {
            0 => Some(EventKind::Ir),
            1 => Some(EventKind::SysCount),
            2 => Some(EventKind::SysTime),
            3 => Some(EventKind::SysCpuTime),
            4 => Some(EventKind::Ge),
            5 => Some(EventKind::Dr),
            6 => Some(EventKind::Dw),
            7 => Some(EventKind::I1mr),
            8 => Some(EventKind::ILmr),
            9 => Some(EventKind::D1mr),
            10 => Some(EventKind::DLmr),
            11 => Some(EventKind::D1mw),
            12 => Some(EventKind::DLmw),
            13 => Some(EventKind::L1hits),
            14 => Some(EventKind::LLhits),
            15 => Some(EventKind::RamHits),
            16 => Some(EventKind::TotalRW),
            17 => Some(EventKind::EstimatedCycles),
            18 => Some(EventKind::Bc),
            19 => Some(EventKind::Bcm),
            20 => Some(EventKind::Bi),
            21 => Some(EventKind::Bim),
            22 => Some(EventKind::ILdmr),
            23 => Some(EventKind::DLdmr),
            24 => Some(EventKind::DLdmw),
            25 => Some(EventKind::AcCost1),
            26 => Some(EventKind::AcCost2),
            27 => Some(EventKind::SpLoss1),
            28 => Some(EventKind::SpLoss2),
            _ => None,
        }
    }

    /// The name under which the profiler reports the kind. A derived kind has
    /// none: the profiler never reports it.
    pub open spec fn profiler_name(self) -> Option<Seq<char>> {
        match self {
            EventKind::Ir => Some("Ir"@),
            EventKind::SysCount => Some("sysCount"@),
            EventKind::SysTime => Some("sysTime"@),
            EventKind::SysCpuTime => Some("sysCpuTime"@),
            EventKind::Ge => Some("Ge"@),
            EventKind::Dr => Some("Dr"@),
            EventKind::Dw => Some("Dw"@),
            EventKind::I1mr => Some("I1mr"@),
            EventKind::ILmr => Some("ILmr"@),
            EventKind::D1mr => Some("D1mr"@),
            EventKind::DLmr => Some("DLmr"@),
            EventKind::D1mw => Some("D1mw"@),
            EventKind::DLmw => Some("DLmw"@),
            EventKind::Bc => Some("Bc"@),
            EventKind::Bcm => Some("Bcm"@),
            EventKind::Bi => Some("Bi"@),
            EventKind::Bim => Some("Bim"@),
            EventKind::ILdmr => Some("ILdmr"@),
            EventKind::DLdmr => Some("DLdmr"@),
            EventKind::DLdmw => Some("DLdmw"@),
            EventKind::AcCost1 => Some("AcCost1"@),
            EventKind::AcCost2 => Some("AcCost2"@),
            EventKind::SpLoss1 => Some("SpLoss1"@),
            EventKind::SpLoss2 => Some("SpLoss2"@),
            _ => None,
        }
    }

    /// The kind that the profiler reports under `name`, if it reports one
    /// under it.
    pub open spec fn named(name: Seq<char>) -> Option<EventKind> {
        if exists|kind: EventKind| kind.profiler_name() == Some(name) {
            Some(choose|kind: EventKind| kind.profiler_name() == Some(name))
        } else {
            None
        }
    }

    /// The kind that the profiler reports under `name`; a failure for a
    /// name under which it reports none. The derived kinds have no name.
    pub fn from_name(name: &str) -> (kind: Result<EventKind, Error>)
        ensures
            kind == match EventKind::named(name@) {
                Some(k) => Ok::<EventKind, Error>(k),
                None => Err(Error::UnknownEventKind),
            },
            kind matches Ok(k) ==> k.profiler_name() == Some(name@),
    {
        let kind = EventKind::lookup_name(name);
        proof {
            if let Ok(found) = kind {
                lemma_names_distinct(found, EventKind::named(name@).unwrap());
            }
        }
        kind
    }

    /// Goes through the names of the profiler.
    fn lookup_name(name: &str) -> (kind: Result<EventKind, Error>)
        ensures
            kind matches Ok(k) ==> k.profiler_name() == Some(name@),
            kind matches Err(e) ==> e == Error::UnknownEventKind && forall|k: EventKind|
                k.profiler_name() != Some(name@),
    {
        let name = name.to_owned();
        if same_text(&name, "Ir") {
            Ok(EventKind::Ir)
        } else if same_text(&name, "sysCount") {
            Ok(EventKind::SysCount)
        } else if same_text(&name, "sysTime") {
            Ok(EventKind::SysTime)
        } else if same_text(&name, "sysCpuTime") {
            Ok(EventKind::SysCpuTime)
        } else if same_text(&name, "Ge") {
            Ok(EventKind::Ge)
        } else if same_text(&name, "Dr") {
            Ok(EventKind::Dr)
        } else if same_text(&name, "Dw") {
            Ok(EventKind::Dw)
        } else if same_text(&name, "I1mr") {
            Ok(EventKind::I1mr)
        } else if same_text(&name, "ILmr") {
            Ok(EventKind::ILmr)
        } else if same_text(&name, "D1mr") {
            Ok(EventKind::D1mr)
        } else if same_text(&name, "DLmr") {
            Ok(EventKind::DLmr)
        } else if same_text(&name, "D1mw") {
            Ok(EventKind::D1mw)
        } else if same_text(&name, "DLmw") {
            Ok(EventKind::DLmw)
        } else if same_text(&name, "Bc") {
            Ok(EventKind::Bc)
        } else if same_text(&name, "Bcm") {
            Ok(EventKind::Bcm)
        } else if same_text(&name, "Bi") {
            Ok(EventKind::Bi)
        } else if same_text(&name, "Bim") {
            Ok(EventKind::Bim)
        } else if same_text(&name, "ILdmr") {
            Ok(EventKind::ILdmr)
        } else if same_text(&name, "DLdmr") {
            Ok(EventKind::DLdmr)
        } else if same_text(&name, "DLdmw") {
            Ok(EventKind::DLdmw)
        } else if same_text(&name, "AcCost1") {
            Ok(EventKind::AcCost1)
        } else if same_text(&name, "AcCost2") {
            Ok(EventKind::AcCost2)
        } else if same_text(&name, "SpLoss1") {
            Ok(EventKind::SpLoss1)
        } else if same_text(&name, "SpLoss2") {
            Ok(EventKind::SpLoss2)
        } else {
            Err(Error::UnknownEventKind)
        }
    }

    /// The kind as a reader sees it in a report.
    pub open spec fn label(self) -> Seq<char> {
        match self {
            EventKind::Ir => "Instructions"@,
            EventKind::SysCount => "SysCount"@,
            EventKind::SysTime => "SysTime"@,
            EventKind::SysCpuTime => "SysCpuTime"@,
            EventKind::Ge => "Ge"@,
            EventKind::Dr => "Dr"@,
            EventKind::Dw => "Dw"@,
            EventKind::I1mr => "I1mr"@,
            EventKind::ILmr => "ILmr"@,
            EventKind::D1mr => "D1mr"@,
            EventKind::DLmr => "DLmr"@,
            EventKind::D1mw => "D1mw"@,
            EventKind::DLmw => "DLmw"@,
            EventKind::L1hits => "L1 Hits"@,
            EventKind::LLhits => "L2 Hits"@,
            EventKind::RamHits => "RAM Hits"@,
            EventKind::TotalRW => "Total read+write"@,
            EventKind::EstimatedCycles => "Estimated Cycles"@,
            EventKind::Bc => "Bc"@,
            EventKind::Bcm => "Bcm"@,
            EventKind::Bi => "Bi"@,
            EventKind::Bim => "Bim"@,
            EventKind::ILdmr => "ILdmr"@,
            EventKind::DLdmr => "DLdmr"@,
            EventKind::DLdmw => "DLdmw"@,
            EventKind::AcCost1 => "AcCost1"@,
            EventKind::AcCost2 => "AcCost2"@,
            EventKind::SpLoss1 => "SpLoss1"@,
            EventKind::SpLoss2 => "SpLoss2"@,
        }
    }

    /// The kind as a reader sees it in a report.
    pub fn to_string(&self) -> (text: String)
        ensures
            text@ == self.label(),
    {
        match self {
            EventKind::Ir => String::from_str("Instructions"),
            EventKind::SysCount => String::from_str("SysCount"),
            EventKind::SysTime => String::from_str("SysTime"),
            EventKind::SysCpuTime => String::from_str("SysCpuTime"),
            EventKind::Ge => String::from_str("Ge"),
            EventKind::Dr => String::from_str("Dr"),
            EventKind::Dw => String::from_str("Dw"),
            EventKind::I1mr => String::from_str("I1mr"),
            EventKind::ILmr => String::from_str("ILmr"),
            EventKind::D1mr => String::from_str("D1mr"),
            EventKind::DLmr => String::from_str("DLmr"),
            EventKind::D1mw => String::from_str("D1mw"),
            EventKind::DLmw => String::from_str("DLmw"),
            EventKind::L1hits => String::from_str("L1 Hits"),
            EventKind::LLhits => String::from_str("L2 Hits"),
            EventKind::RamHits => String::from_str("RAM Hits"),
            EventKind::TotalRW => String::from_str("Total read+write"),
            EventKind::EstimatedCycles => String::from_str("Estimated Cycles"),
            EventKind::Bc => String::from_str("Bc"),
            EventKind::Bcm => String::from_str("Bcm"),
            EventKind::Bi => String::from_str("Bi"),
            EventKind::Bim => String::from_str("Bim"),
            EventKind::ILdmr => String::from_str("ILdmr"),
            EventKind::DLdmr => String::from_str("DLdmr"),
            EventKind::DLdmw => String::from_str("DLdmw"),
            EventKind::AcCost1 => String::from_str("AcCost1"),
            EventKind::AcCost2 => String::from_str("AcCost2"),
            EventKind::SpLoss1 => String::from_str("SpLoss1"),
            EventKind::SpLoss2 => String::from_str("SpLoss2"),
        }
    }

    /// Whether the kind is computed from the cache simulation's counters
    /// and never reported by the profiler itself.
    pub open spec fn is_derived_spec(&self) -> bool {
        *self == EventKind::L1hits || *self == EventKind::LLhits || *self == EventKind::RamHits
            || *self == EventKind::TotalRW || *self == EventKind::EstimatedCycles
    }

    /// Whether the kind is computed from the cache simulation's counters
    /// and never reported by the profiler itself.
    #[verifier::when_used_as_spec(is_derived_spec)]
    pub fn is_derived(&self) -> (derived: bool)
        ensures
            derived == self.is_derived_spec(),
    {
        match self {
            EventKind::L1hits
            | EventKind::LLhits
            | EventKind::RamHits
            | EventKind::TotalRW
            | EventKind::EstimatedCycles => true,
            _ => false,
        }
    }
}

/// No two kinds have the same name: a name that the profiler uses names
/// one kind only.
pub proof fn lemma_names_distinct(a: EventKind, b: EventKind)
    requires
        a.profiler_name().is_some(),
        a.profiler_name() == b.profiler_name(),
    ensures
        a == b,
{
    reveal_strlit("Ir");
    reveal_strlit("sysCount");
    reveal_strlit("sysTime");
    reveal_strlit("sysCpuTime");
    reveal_strlit("Ge");
    reveal_strlit("Dr");
    reveal_strlit("Dw");
    reveal_strlit("I1mr");
    reveal_strlit("ILmr");
    reveal_strlit("D1mr");
    reveal_strlit("DLmr");
    reveal_strlit("D1mw");
    reveal_strlit("DLmw");
    reveal_strlit("Bc");
    reveal_strlit("Bcm");
    reveal_strlit("Bi");
    reveal_strlit("Bim");
    reveal_strlit("ILdmr");
    reveal_strlit("DLdmr");
    reveal_strlit("DLdmw");
    reveal_strlit("AcCost1");
    reveal_strlit("AcCost2");
    reveal_strlit("SpLoss1");
    reveal_strlit("SpLoss2");
    assert("Ir"@.len() == 2);
    assert("Ir"@[0] == 'I');
    assert("Ir"@[1] == 'r');
    assert("sysCount"@.len() == 8);
    assert("sysCount"@[0] == 's');
    assert("sysCount"@[1] == 'y');
    assert("sysCount"@[2] == 's');
    assert("sysCount"@[3] == 'C');
    assert("sysCount"@[4] == 'o');
    assert("sysCount"@[5] == 'u');
    assert("sysCount"@[6] == 'n');
    assert("sysCount"@[7] == 't');
    assert("sysTime"@.len() == 7);
    assert("sysTime"@[0] == 's');
    assert("sysTime"@[1] == 'y');
    assert("sysTime"@[2] == 's');
    assert("sysTime"@[3] == 'T');
    assert("sysTime"@[4] == 'i');
    assert("sysTime"@[5] == 'm');
    assert("sysTime"@[6] == 'e');
    assert("sysCpuTime"@.len() == 10);
    assert("sysCpuTime"@[0] == 's');
    assert("sysCpuTime"@[1] == 'y');
    assert("sysCpuTime"@[2] == 's');
    assert("sysCpuTime"@[3] == 'C');
    assert("sysCpuTime"@[4] == 'p');
    assert("sysCpuTime"@[5] == 'u');
    assert("sysCpuTime"@[6] == 'T');
    assert("sysCpuTime"@[7] == 'i');
    assert("sysCpuTime"@[8] == 'm');
    assert("sysCpuTime"@[9] == 'e');
    assert("Ge"@.len() == 2);
    assert("Ge"@[0] == 'G');
    assert("Ge"@[1] == 'e');
    assert("Dr"@.len() == 2);
    assert("Dr"@[0] == 'D');
    assert("Dr"@[1] == 'r');
    assert("Dw"@.len() == 2);
    assert("Dw"@[0] == 'D');
    assert("Dw"@[1] == 'w');
    assert("I1mr"@.len() == 4);
    assert("I1mr"@[0] == 'I');
    assert("I1mr"@[1] == '1');
    assert("I1mr"@[2] == 'm');
    assert("I1mr"@[3] == 'r');
    assert("ILmr"@.len() == 4);
    assert("ILmr"@[0] == 'I');
    assert("ILmr"@[1] == 'L');
    assert("ILmr"@[2] == 'm');
    assert("ILmr"@[3] == 'r');
    assert("D1mr"@.len() == 4);
    assert("D1mr"@[0] == 'D');
    assert("D1mr"@[1] == '1');
    assert("D1mr"@[2] == 'm');
    assert("D1mr"@[3] == 'r');
    assert("DLmr"@.len() == 4);
    assert("DLmr"@[0] == 'D');
    assert("DLmr"@[1] == 'L');
    assert("DLmr"@[2] == 'm');
    assert("DLmr"@[3] == 'r');
    assert("D1mw"@.len() == 4);
    assert("D1mw"@[0] == 'D');
    assert("D1mw"@[1] == '1');
    assert("D1mw"@[2] == 'm');
    assert("D1mw"@[3] == 'w');
    assert("DLmw"@.len() == 4);
    assert("DLmw"@[0] == 'D');
    assert("DLmw"@[1] == 'L');
    assert("DLmw"@[2] == 'm');
    assert("DLmw"@[3] == 'w');
    assert("Bc"@.len() == 2);
    assert("Bc"@[0] == 'B');
    assert("Bc"@[1] == 'c');
    assert("Bcm"@.len() == 3);
    assert("Bcm"@[0] == 'B');
    assert("Bcm"@[1] == 'c');
    assert("Bcm"@[2] == 'm');
    assert("Bi"@.len() == 2);
    assert("Bi"@[0] == 'B');
    assert("Bi"@[1] == 'i');
    assert("Bim"@.len() == 3);
    assert("Bim"@[0] == 'B');
    assert("Bim"@[1] == 'i');
    assert("Bim"@[2] == 'm');
    assert("ILdmr"@.len() == 5);
    assert("ILdmr"@[0] == 'I');
    assert("ILdmr"@[1] == 'L');
    assert("ILdmr"@[2] == 'd');
    assert("ILdmr"@[3] == 'm');
    assert("ILdmr"@[4] == 'r');
    assert("DLdmr"@.len() == 5);
    assert("DLdmr"@[0] == 'D');
    assert("DLdmr"@[1] == 'L');
    assert("DLdmr"@[2] == 'd');
    assert("DLdmr"@[3] == 'm');
    assert("DLdmr"@[4] == 'r');
    assert("DLdmw"@.len() == 5);
    assert("DLdmw"@[0] == 'D');
    assert("DLdmw"@[1] == 'L');
    assert("DLdmw"@[2] == 'd');
    assert("DLdmw"@[3] == 'm');
    assert("DLdmw"@[4] == 'w');
    assert("AcCost1"@.len() == 7);
    assert("AcCost1"@[0] == 'A');
    assert("AcCost1"@[1] == 'c');
    assert("AcCost1"@[2] == 'C');
    assert("AcCost1"@[3] == 'o');
    assert("AcCost1"@[4] == 's');
    assert("AcCost1"@[5] == 't');
    assert("AcCost1"@[6] == '1');
    assert("AcCost2"@.len() == 7);
    assert("AcCost2"@[0] == 'A');
    assert("AcCost2"@[1] == 'c');
    assert("AcCost2"@[2] == 'C');
    assert("AcCost2"@[3] == 'o');
    assert("AcCost2"@[4] == 's');
    assert("AcCost2"@[5] == 't');
    assert("AcCost2"@[6] == '2');
    assert("SpLoss1"@.len() == 7);
    assert("SpLoss1"@[0] == 'S');
    assert("SpLoss1"@[1] == 'p');
    assert("SpLoss1"@[2] == 'L');
    assert("SpLoss1"@[3] == 'o');
    assert("SpLoss1"@[4] == 's');
    assert("SpLoss1"@[5] == 's');
    assert("SpLoss1"@[6] == '1');
    assert("SpLoss2"@.len() == 7);
    assert("SpLoss2"@[0] == 'S');
    assert("SpLoss2"@[1] == 'p');
    assert("SpLoss2"@[2] == 'L');
    assert("SpLoss2"@[3] == 'o');
    assert("SpLoss2"@[4] == 's');
    assert("SpLoss2"@[5] == 's');
    assert("SpLoss2"@[6] == '2');
}

} // verus!
