//! Where a call was made: the position vector of a call record.

use crate::ordered_map::{
    key_position, map_clone, map_entries, map_get_index, map_insert, map_len, map_new, map_same,
    map_set_index,
};
use crate::parse::{parse_decimal, parse_number, parse_position, parse_position_spec};
use crate::text::{lowercase, to_lowercase};
use indexmap::IndexMap;
use vstd::pervasive::unreached;
use vstd::prelude::*;
use vstd::std_specs::cmp::PartialEqSpecImpl;
use vstd::string::StringExecFns;

verus! {

/// What a position is given in.
#[derive(Debug, Clone, Copy, PartialEq, Eq, Hash, Structural)]
pub enum PositionType {
    /// An instruction address.
    Instr,
    /// A line of the source.
    Line,
}

/// The position type that a name in lower case stands for. `addr` is what
/// the annotation script of the profiler writes for an address.
pub open spec fn position_type_named(lower: Seq<char>) -> Option<PositionType> {
    if lower == "instr"@ || lower == "addr"@ {
        Some(PositionType::Instr)
    } else if lower == "line"@ {
        Some(PositionType::Line)
    } else {
        None
    }
}

impl PositionType {
    /// The position type that a name in lower case stands for, if it
    /// stands for one.
    pub fn from_lowercase(lower: &String) -> (kind: Option<PositionType>)
        ensures
            kind == position_type_named(lower@),
    {
        if *lower == String::from_str("instr") || *lower == String::from_str("addr") {
            Some(PositionType::Instr)
        } else if *lower == String::from_str("line") {
            Some(PositionType::Line)
        } else {
            None
        }
    }

    /// The position type that the profiler declares by `name`, in whatever
    /// case it writes the name; none for a name it does not use.
    pub fn from_name(name: &str) -> (kind: Option<PositionType>)
        ensures
            kind == position_type_named(lowercase(name@)),
    {
        let lower = to_lowercase(name);
        PositionType::from_lowercase(&lower)
    }

    /// The number under which positions of this type are stored.
    closed spec fn code_spec(self) -> u8 {
        match self {
            PositionType::Instr => 0,
            PositionType::Line => 1,
        }
    }

    fn code(self) -> (code: u8)
        ensures
            code == self.code_spec(),
            code < 2,
            decode_type(code) == self,
    {
        match self {
            PositionType::Instr => 0,
            PositionType::Line => 1,
        }
    }
}

/// The position type that is stored under `code`.
pub closed spec fn decode_type(code: u8) -> PositionType {
    if code == 0 {
        PositionType::Instr
    } else {
        PositionType::Line
    }
}

/// The stored pairs as positions.
pub closed spec fn decode_positions(raw: Seq<(u8, u64)>) -> Seq<(PositionType, u64)> {
    raw.map_values(|e: (u8, u64)| (decode_type(e.0), e.1))
}

/// The stored pairs hold the two codes only, and none twice.
pub closed spec fn raw_positions_ok(raw: Seq<(u8, u64)>) -> bool {
    &&& forall|i: int| 0 <= i < raw.len() ==> (#[trigger] raw[i]).0 < 2
    &&& forall|i: int, j: int|
        0 <= i < raw.len() && 0 <= j < raw.len() && i != j ==> (#[trigger] raw[i]).0 != (
        #[trigger] raw[j]).0
}

/// Whether `positions` holds a position of `kind`.
pub open spec fn has_type(positions: Seq<(PositionType, u64)>, kind: PositionType) -> bool {
    exists|i: int| 0 <= i < positions.len() && positions[i].0 == kind
}

/// The position types that a declaration names, each where it is named
/// first, all at position zero.
pub open spec fn declared(kinds: Seq<PositionType>) -> Seq<(PositionType, u64)>
    decreases kinds.len(),
{
    if kinds.len() == 0 {
        Seq::empty()
    } else if has_type(declared(kinds.drop_last()), kinds.last()) {
        declared(kinds.drop_last())
    } else {
        declared(kinds.drop_last()).push((kinds.last(), 0u64))
    }
}

/// The tokens that meet a position of a vector of `len` positions, from
/// token `skip` on, write numbers.
pub open spec fn positions_readable(len: nat, tokens: Seq<&str>, skip: nat) -> bool {
    forall|i: int|
        0 <= i < len && skip + i < tokens.len() ==> parse_position_spec(
            (#[trigger] tokens[skip + i])@,
        ).is_some()
}

/// `positions` with each position set to the number that the token for it
/// writes: token `skip` for the first position, and so on. Positions that
/// the tokens do not reach stay as they are.
pub open spec fn positioned(
    positions: Seq<(PositionType, u64)>,
    tokens: Seq<&str>,
    skip: nat,
) -> Seq<(PositionType, u64)> {
    Seq::new(
        positions.len(),
        |i: int|
            (
                positions[i].0,
                if skip + i < tokens.len() {
                    parse_position_spec(tokens[skip + i]@).unwrap_or(0)
                } else {
                    positions[i].1
                },
            ),
    )
}

/// Positions keyed by their type, in the order in which the profiler
/// declares them.
#[derive(Debug)]
pub struct Positions {
    map: IndexMap<u8, u64>,
}

impl View for Positions {
    type V = Seq<(PositionType, u64)>;

    closed spec fn view(&self) -> Seq<(PositionType, u64)> {
        decode_positions(map_entries(self.map))
    }
}

impl PartialEq for Positions {
    /// Two vectors are equal where they hold the same positions in the same
    /// order.
    fn eq(&self, other: &Positions) -> (same: bool) {
        map_same(&self.map, &other.map)
    }
}

impl PartialEqSpecImpl for Positions {
    open spec fn obeys_eq_spec() -> bool {
        true
    }

    open spec fn eq_spec(&self, other: &Positions) -> bool {
        self.stored() == other.stored()
    }
}

impl Eq for Positions {

}

impl Clone for Positions {
    fn clone(&self) -> (copy: Positions)
        ensures
            copy@ == self@,
            copy.wf() == self.wf(),
    {
        Positions { map: map_clone(&self.map) }
    }
}

impl Default for Positions {
    /// The positions of a run that declares none: the line alone, at zero.
    fn default() -> (positions: Positions)
        ensures
            positions.wf(),
            positions@ == seq![(PositionType::Line, 0u64)],
    {
        let mut map = map_new();
        let _ = map_insert(&mut map, PositionType::Line.code(), 0);
        let positions = Positions { map };
        assert(positions@ =~= seq![(PositionType::Line, 0u64)]);
        positions
    }
}

impl Positions {
    /// The pairs as they are stored.
    pub closed spec fn stored(&self) -> Seq<(u8, u64)> {
        map_entries(self.map)
    }

    /// The vector is in a valid state. Every vector that this library hands
    /// out is.
    pub closed spec fn wf(&self) -> bool {
        raw_positions_ok(map_entries(self.map))
    }

    /// The positions of the types that the profiler declares by `names`, in
    /// that order and all zero; none where a name is no position type. A
    /// type that is named again stays where it is.
    pub fn from_iter(names: &[&str]) -> (positions: Option<Positions>)
        ensures
            positions matches Some(p) ==> p.wf() && exists|kinds: Seq<PositionType>|
                {
                    &&& kinds.len() == names.len()
                    &&& forall|i: int|
                        0 <= i < names.len() ==> position_type_named(lowercase(names[i]@))
                            == Some(#[trigger] kinds[i])
                    &&& p@ == declared(kinds)
                },
            positions.is_none() ==> exists|i: int|
                0 <= i < names.len() && position_type_named(lowercase((#[trigger] names[i])@)).is_none(),
    {
        let mut map = map_new();
        let ghost mut kinds = Seq::<PositionType>::empty();
        let mut i: usize = 0;
        assert(decode_positions(map_entries(map)) =~= declared(kinds));
        while i < names.len()
            invariant
                i <= names.len(),
                kinds.len() == i,
                forall|j: int|
                    0 <= j < i ==> position_type_named(lowercase(names[j]@)) == Some(
                        #[trigger] kinds[j],
                    ),
                raw_positions_ok(map_entries(map)),
                forall|j: int|
                    0 <= j < map_entries(map).len() ==> (#[trigger] map_entries(map)[j]).1 == 0,
                decode_positions(map_entries(map)) == declared(kinds),
            decreases names.len() - i,
        {
            match PositionType::from_name(names[i]) {
                Some(kind) => {
                    let ghost raw = map_entries(map);
                    let code = kind.code();
                    let _ = map_insert(&mut map, code, 0);
                    proof {
                        let after = map_entries(map);
                        let longer = kinds.push(kind);
                        assert(longer.drop_last() =~= kinds);
                        let shown = decode_positions(raw);
                        if has_type(shown, kind) {
                            let at = choose|at: int| 0 <= at < shown.len() && shown[at].0 == kind;
                            assert(raw[at].0 < 2);
                            assert(raw[at].0 == code);
                        }
                        match key_position(raw, code) {
                            Some(at) => {
                                assert(shown[at].0 == kind);
                                assert(raw[at] == (code, 0u64));
                                assert(after =~= raw);
                            },
                            None => {
                                assert(decode_positions(after) =~= shown.push((kind, 0u64)));
                                assert forall|a: int, b: int|
                                    0 <= a < after.len() && 0 <= b < after.len() && a
                                        != b implies (#[trigger] after[a]).0 != (
                                #[trigger] after[b]).0 by {
                                    if a < raw.len() {
                                        assert(after[a] == raw[a]);
                                    }
                                    if b < raw.len() {
                                        assert(after[b] == raw[b]);
                                    }
                                }
                            },
                        }
                        kinds = longer;
                    }
                },
                None => {
                    return None;
                },
            }
            i += 1;
        }
        Some(Positions { map })
    }

    /// Sets the positions to the numbers that the tokens from `skip` on
    /// write, one after the other: an address in hexadecimal after `0x`, a
    /// line in decimal.
    fn set_from(&mut self, tokens: &[&str], skip: usize)
        requires
            old(self).wf(),
            skip <= tokens.len(),
            positions_readable(old(self)@.len(), tokens@, skip as nat),
        ensures
            final(self).wf(),
            final(self)@ == positioned(old(self)@, tokens@, skip as nat),
    {
        let ghost before = self@;
        let ghost raw_before = map_entries(self.map);
        let len = map_len(&self.map);
        let rest = tokens.len() - skip;
        let mut i: usize = 0;
        while i < len && i < rest
            invariant
                i <= len,
                i <= rest,
                rest == tokens.len() - skip,
                skip <= tokens.len(),
                len == raw_before.len(),
                before == decode_positions(raw_before),
                raw_positions_ok(raw_before),
                positions_readable(before.len(), tokens@, skip as nat),
                map_entries(self.map).len() == len,
                forall|j: int|
                    0 <= j < len ==> (#[trigger] map_entries(self.map)[j]).0 == raw_before[j].0,
                forall|j: int|
                    0 <= j < i ==> (#[trigger] map_entries(self.map)[j]).1 == parse_position_spec(
                        tokens[skip + j]@,
                    ).unwrap_or(0),
                forall|j: int|
                    i <= j < len ==> (#[trigger] map_entries(self.map)[j]).1 == raw_before[j].1,
            decreases len - i,
        {
            assert(parse_position_spec(tokens[skip + i]@).is_some());
            match parse_position(tokens[skip + i]) {
                Some(position) => {
                    map_set_index(&mut self.map, i, position);
                },
                None => {
                    assert(false);
                },
            }
            i += 1;
        }
        proof {
            let after = map_entries(self.map);
            assert forall|a: int, b: int|
                0 <= a < after.len() && 0 <= b < after.len() && a != b implies (
            #[trigger] after[a]).0 != (#[trigger] after[b]).0 by {
                assert(raw_before[a].0 != raw_before[b].0);
            }
            assert forall|a: int| 0 <= a < after.len() implies (#[trigger] after[a]).0 < 2 by {
                assert(raw_before[a].0 < 2);
            }
            assert(self@ =~= positioned(before, tokens@, skip as nat));
        }
    }

    /// Sets the positions to the numbers that `tokens` write, one after the
    /// other and in the order of the profiler's declaration: an address in
    /// hexadecimal after `0x`, a line in decimal. Positions that the tokens
    /// do not reach stay as they are; tokens past the last position are not
    /// read.
    pub fn set_iter_str(&mut self, tokens: &[&str])
        requires
            old(self).wf(),
            positions_readable(old(self)@.len(), tokens@, 0),
        ensures
            final(self).wf(),
            final(self)@ == positioned(old(self)@, tokens@, 0),
    {
        self.set_from(tokens, 0)
    }

    /// The number of positions.
    pub fn len(&self) -> (len: usize)
        ensures
            len == self@.len(),
    {
        map_len(&self.map)
    }

    /// Whether there is no position.
    pub fn is_empty(&self) -> (empty: bool)
        ensures
            empty == (self@.len() == 0),
    {
        map_len(&self.map) == 0
    }

    /// The position at a place of the order, if the vector is that long.
    pub fn position_by_index(&self, index: usize) -> (position: Option<(PositionType, u64)>)
        requires
            self.wf(),
        ensures
            position == if index < self@.len() {
                Some(self@[index as int])
            } else {
                None
            },
    {
        match map_get_index(&self.map, index) {
            Some((code, position)) => {
                if code == 0 {
                    Some((PositionType::Instr, position))
                } else {
                    Some((PositionType::Line, position))
                }
            },
            None => None,
        }
    }
}

/// A call as the profiler records it: how often the call was made, and
/// where.
#[derive(Debug, Clone, PartialEq, Eq)]
pub struct Calls {
    amount: u64,
    positions: Positions,
}

impl Default for Calls {
    /// No call, at the default positions.
    fn default() -> (calls: Calls)
        ensures
            calls.amount_spec() == 0,
            calls.positions_spec().wf(),
            calls.positions_spec()@ == seq![(PositionType::Line, 0u64)],
    {
        Calls { amount: 0, positions: Positions::default() }
    }
}

impl Calls {
    /// How often the call was made.
    pub closed spec fn amount_spec(&self) -> u64 {
        self.amount
    }

    /// Where the call was made.
    pub closed spec fn positions_spec(&self) -> Positions {
        self.positions
    }

    /// Reads a call record from the tokens of its line: the number of calls
    /// first, then the positions of the call in the order of `positions`,
    /// which gives the position types of the run.
    pub fn from(tokens: &[&str], positions: Positions) -> (calls: Calls)
        requires
            positions.wf(),
            tokens.len() > 0,
            parse_number(tokens[0]@, 10).is_some(),
            positions_readable(positions@.len(), tokens@, 1),
        ensures
            Some(calls.amount_spec()) == parse_number(tokens[0]@, 10),
            calls.positions_spec().wf(),
            calls.positions_spec()@ == positioned(positions@, tokens@, 1),
    {
        let mut positions = positions;
        match parse_decimal(tokens[0]) {
            Some(amount) => {
                positions.set_from(tokens, 1);
                Calls { amount, positions }
            },
            None => unreached(),
        }
    }

    /// How often the call was made.
    pub fn amount(&self) -> (amount: u64)
        ensures
            amount == self.amount_spec(),
    {
        self.amount
    }

    /// Where the call was made.
    pub fn positions(&self) -> (positions: &Positions)
        ensures
            *positions == self.positions_spec(),
    {
        &self.positions
    }
}

} // verus!
