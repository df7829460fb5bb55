//! The report: headers, and the table that sets the counts of two runs
//! side by side.
//!
//! What is made here is text, padded as the table needs it. The table comes
//! in pieces that each name a style, bold or a colour, and as the plain text
//! of those pieces. Putting the colours on a terminal, and the writing of a
//! change as a decimal number, are left to the caller: the table takes each
//! change as the text that the caller made of it.

use crate::api::ValgrindTool;
use crate::keyed::value_of;
use crate::event_kind::EventKind;
use crate::summary::{CostsDiff, CostsSummary};
use vstd::prelude::*;
use vstd::string::StringExecFns;

verus! {

/// What stands in the table in place of a count that a run does not have.
pub const NOT_AVAILABLE: &'static str = "N/A";

/// The formats in which a run can be reported.
#[derive(Debug, Clone, Copy, PartialEq, Eq, Structural)]
pub enum OutputFormat {
    /// The table, for a reader.
    Default,
    /// Json on one line.
    Json,
    /// Json over several lines, indented.
    PrettyJson,
}

/// Which of the output of the benchmarked program is let through.
#[derive(Debug, Clone, Copy, PartialEq, Eq, Structural)]
pub enum NoCapture {
    /// Standard output and standard error.
    True,
    /// Neither of them.
    False,
    /// Standard error only.
    Stderr,
    /// Standard output only.
    Stdout,
}

/// The path of a benchmark function through its modules.
#[derive(Debug, Clone, PartialEq, Eq)]
pub struct ModulePath(pub String);

/// The line that introduces a comparison with another benchmark.
#[derive(Debug, Clone, PartialEq, Eq)]
pub struct ComparisonHeader {
    /// The function that is compared with.
    pub function_name: String,
    /// The id of the benchmark that is compared with.
    pub id: String,
    /// What else is said of it.
    pub details: Option<String>,
}

/// The line that introduces a benchmark.
#[derive(Debug, Clone, PartialEq, Eq)]
pub struct Header {
    /// The path of the benchmark function.
    pub module: String,
    /// The id of the benchmark, if it has one.
    pub id: Option<String>,
    /// The description of the benchmark, if it has one.
    pub description: Option<String>,
}

/// A row of the table: one event kind with the counts of the two runs.
#[derive(Debug, Clone, PartialEq, Eq)]
pub struct Row {
    /// What the row is labelled with, the colon included.
    pub description: String,
    /// The counts.
    pub diff: CostsDiff,
    /// The change in percent as a signed decimal number, without the
    /// percent sign. It is read only where both counts are there and
    /// differ.
    pub change: String,
    /// Whether the change is without bound.
    pub change_infinite: bool,
    /// The new count as a multiple of the old one, as a signed decimal
    /// number. It is read only where both counts are there and differ.
    pub factor: String,
    /// Whether the factor is without bound.
    pub factor_infinite: bool,
}

/// The kinds that the table shows, in the order of its rows.
#[derive(Debug, Clone)]
pub struct VerticalFormat {
    event_kinds: Vec<EventKind>,
}

/// `count` characters `fill`.
pub open spec fn filled(count: int, fill: char) -> Seq<char> {
    Seq::new(
        if count > 0 {
            count as nat
        } else {
            0
        },
        |i: int| fill,
    )
}

/// `text` at the left of a field of `width` characters. A text that is
/// wider than the field is not cut.
pub open spec fn pad_right(text: Seq<char>, width: int) -> Seq<char> {
    text + filled(width - text.len(), ' ')
}

/// `text` at the right of a field of `width` characters.
pub open spec fn pad_left(text: Seq<char>, width: int) -> Seq<char> {
    filled(width - text.len(), ' ') + text
}

/// `text` in the middle of a field of `width` characters. Where the padding
/// cannot be halved, the odd character goes to the right.
pub open spec fn centered(text: Seq<char>, width: int, fill: char) -> Seq<char> {
    let padding = if width > text.len() {
        width - text.len()
    } else {
        0
    };
    filled(padding / 2, fill) + text + filled(padding - padding / 2, fill)
}

/// The character of a decimal digit.
pub open spec fn digit_char(digit: nat) -> char {
    if digit == 0 {
        '0'
    } else if digit == 1 {
        '1'
    } else if digit == 2 {
        '2'
    } else if digit == 3 {
        '3'
    } else if digit == 4 {
        '4'
    } else if digit == 5 {
        '5'
    } else if digit == 6 {
        '6'
    } else if digit == 7 {
        '7'
    } else if digit == 8 {
        '8'
    } else {
        '9'
    }
}

/// `number` in decimal digits, without leading zeros.
pub open spec fn decimal(number: nat) -> Seq<char>
    decreases number,
{
    if number < 10 {
        seq![digit_char(number)]
    } else {
        decimal(number / 10).push(digit_char(number % 10))
    }
}

/// The number of bytes that a character takes in UTF-8.
pub open spec fn utf8_width(c: char) -> nat {
    if (c as u32) < 0x80 {
        1
    } else if (c as u32) < 0x800 {
        2
    } else if (c as u32) < 0x1_0000 {
        3
    } else {
        4
    }
}

/// How many characters from the start of `text` fit into `budget` bytes.
pub open spec fn fitting(text: Seq<char>, budget: nat) -> nat
    decreases text.len(),
{
    if text.len() == 0 || utf8_width(text[0]) > budget {
        0
    } else {
        1 + fitting(text.drop_first(), (budget - utf8_width(text[0])) as nat)
    }
}

/// `text` cut to the longest start of it that takes no more than `budget`
/// bytes. No character is cut in two.
pub open spec fn truncated(text: Seq<char>, budget: nat) -> Seq<char> {
    text.take(fitting(text, budget) as int)
}

/// The number of bytes to which a title cuts a description.
pub const TITLE_DESCRIPTION_BYTES: usize = 37;

/// The title of a benchmark: its module path, then its id if it has one,
/// then, if it has an id, its description, cut, with an ellipsis where
/// something was cut off.
pub open spec fn title_of(
    module: Seq<char>,
    id: Option<Seq<char>>,
    description: Option<Seq<char>>,
) -> Seq<char> {
    match id {
        Some(id) => match description {
            Some(description) => {
                let shown = truncated(description, TITLE_DESCRIPTION_BYTES as nat);
                module + " "@ + id + ":"@ + shown + if shown.len() < description.len() {
                    "..."@
                } else {
                    Seq::<char>::empty()
                }
            },
            None => module + " "@ + id,
        },
        None => module,
    }
}

/// A string from its characters, if there are any.
pub open spec fn text_view(text: Option<String>) -> Option<Seq<char>> {
    match text {
        Some(t) => Some(t@),
        None => None,
    }
}

/// Appends `count` times the one character of `fill`.
fn push_filled(out: &mut String, count: usize, fill: &str, Ghost(c): Ghost<char>)
    requires
        fill@ == seq![c],
    ensures
        final(out)@ == old(out)@ + filled(count as int, c),
{
    let ghost before = out@;
    let mut i: usize = 0;
    assert(out@ =~= before + filled(0, c));
    while i < count
        invariant
            i <= count,
            fill@ == seq![c],
            out@ == before + filled(i as int, c),
        decreases count - i,
    {
        out.append(fill);
        assert(out@ =~= before + filled(i + 1, c));
        i += 1;
    }
}

/// Appends `text` at the left of a field of `width` spaces.
fn push_pad_right(out: &mut String, text: &str, width: usize)
    ensures
        final(out)@ == old(out)@ + pad_right(text@, width as int),
{
    let ghost before = out@;
    let len = text.unicode_len();
    out.append(text);
    proof {
        reveal_strlit(" ");
        assert(" "@ =~= seq![' ']);
    }
    if len < width {
        push_filled(out, width - len, " ", Ghost(' '));
    } else {
        assert(filled(width - len, ' ') =~= Seq::<char>::empty());
    }
    assert(out@ =~= before + pad_right(text@, width as int));
}

/// Appends `text` at the right of a field of `width` spaces.
fn push_pad_left(out: &mut String, text: &str, width: usize)
    ensures
        final(out)@ == old(out)@ + pad_left(text@, width as int),
{
    let ghost before = out@;
    let len = text.unicode_len();
    proof {
        reveal_strlit(" ");
        assert(" "@ =~= seq![' ']);
    }
    if len < width {
        push_filled(out, width - len, " ", Ghost(' '));
    } else {
        assert(filled(width - len, ' ') =~= Seq::<char>::empty());
    }
    out.append(text);
    assert(out@ =~= before + pad_left(text@, width as int));
}

/// Appends `text` in the middle of a field of `width` characters `fill`.
fn push_centered(out: &mut String, text: &str, width: usize, fill: &str, Ghost(c): Ghost<char>)
    requires
        fill@ == seq![c],
    ensures
        final(out)@ == old(out)@ + centered(text@, width as int, c),
{
    let ghost before = out@;
    let len = text.unicode_len();
    let padding = if width > len {
        width - len
    } else {
        0
    };
    let left = padding / 2;
    push_filled(out, left, fill, Ghost(c));
    out.append(text);
    push_filled(out, padding - left, fill, Ghost(c));
    assert(out@ =~= before + centered(text@, width as int, c));
}

/// The text of a decimal digit.
fn digit_text(digit: u64) -> (text: &'static str)
    requires
        digit < 10,
    ensures
        text@ == seq![digit_char(digit as nat)],
{
    proof {
        reveal_strlit("0");
        reveal_strlit("1");
        reveal_strlit("2");
        reveal_strlit("3");
        reveal_strlit("4");
        reveal_strlit("5");
        reveal_strlit("6");
        reveal_strlit("7");
        reveal_strlit("8");
        reveal_strlit("9");
    }
    let text = if digit == 0 {
        "0"
    } else if digit == 1 {
        "1"
    } else if digit == 2 {
        "2"
    } else if digit == 3 {
        "3"
    } else if digit == 4 {
        "4"
    } else if digit == 5 {
        "5"
    } else if digit == 6 {
        "6"
    } else if digit == 7 {
        "7"
    } else if digit == 8 {
        "8"
    } else {
        "9"
    };
    assert(text@ =~= seq![digit_char(digit as nat)]);
    text
}

/// Appends `number` in decimal digits.
fn push_decimal(out: &mut String, number: u64)
    ensures
        final(out)@ == old(out)@ + decimal(number as nat),
    decreases number,
{
    let ghost before = out@;
    if number >= 10 {
        push_decimal(out, number / 10);
    }
    out.append(digit_text(number % 10));
    assert(out@ =~= before + decimal(number as nat));
}

/// `number` in decimal digits.
pub fn decimal_text(number: u64) -> (text: String)
    ensures
        text@ == decimal(number as nat),
{
    let mut text = String::new();
    push_decimal(&mut text, number);
    assert(text@ =~= decimal(number as nat));
    text
}

impl ModulePath {
    /// The module path that `path` writes.
    pub fn new(path: &str) -> (module: ModulePath)
        ensures
            module.0@ == path@,
    {
        ModulePath(String::from_str(path))
    }

    /// The module path as text.
    pub fn to_string(&self) -> (text: String)
        ensures
            text@ == self.0@,
    {
        self.0.clone()
    }
}

impl ComparisonHeader {
    /// The header of a comparison with the benchmark `id` of
    /// `function_name`.
    pub fn new(function_name: &str, id: &str, details: Option<&str>) -> (header: ComparisonHeader)
        ensures
            header.function_name@ == function_name@,
            header.id@ == id@,
            match details {
                Some(d) => header.details matches Some(h) && h@ == d@,
                None => header.details.is_none(),
            },
    {
        ComparisonHeader {
            function_name: String::from_str(function_name),
            id: String::from_str(id),
            details: match details {
                Some(d) => Some(String::from_str(d)),
                None => None,
            },
        }
    }
}

impl Header {
    /// The header of the benchmark at `module`.
    pub fn new(module: &str, id: Option<String>, description: Option<String>) -> (header:
        Header)
        ensures
            header.module@ == module@,
            header.id == id,
            header.description == description,
    {
        Header { module: String::from_str(module), id, description }
    }

    /// The header of the benchmark at `module`.
    pub fn from_module_path(
        module: &ModulePath,
        id: Option<String>,
        description: Option<String>,
    ) -> (header: Header)
        ensures
            header.module@ == module.0@,
            header.id == id,
            header.description == description,
    {
        Header { module: module.to_string(), id, description }
    }

    /// The header as one line of plain text: the module path, then the id,
    /// then the description, cut to 37 bytes and marked with an ellipsis
    /// where it was longer. A header without an id shows the module path
    /// alone.
    pub fn to_title(&self) -> (title: String)
        ensures
            title@ == title_of(
                self.module@,
                text_view(self.id),
                text_view(self.description),
            ),
    {
        let mut output = self.module.clone();
        match &self.id {
            Some(id) => {
                output.append(" ");
                output.append(id.as_str());
                match &self.description {
                    Some(description) => {
                        let shown = truncate_str_utf8(description.as_str(), TITLE_DESCRIPTION_BYTES);
                        output.append(":");
                        output.append(shown);
                        if shown.unicode_len() < description.as_str().unicode_len() {
                            output.append("...");
                        }
                        assert(output@ =~= title_of(
                            self.module@,
                            text_view(self.id),
                            text_view(self.description),
                        ));
                    },
                    None => {},
                }
            },
            None => {},
        }
        output
    }
}

/// The number of bytes that `c` takes in UTF-8.
fn char_width(c: char) -> (width: usize)
    ensures
        width == utf8_width(c),
        1 <= width <= 4,
{
    let code = c as u32;
    if code < 0x80 {
        1
    } else if code < 0x800 {
        2
    } else if code < 0x1_0000 {
        3
    } else {
        4
    }
}

/// The longest start of `text` that takes no more than `budget` bytes in
/// UTF-8 and does not end inside a character.
pub fn truncate_str_utf8(text: &str, budget: usize) -> (start: &str)
    ensures
        start@ == truncated(text@, budget as nat),
{
    let len = text.unicode_len();
    let mut used: usize = 0;
    let mut count: usize = 0;
    let mut full = false;
    assert(text@.skip(0) =~= text@);
    while count < len && !full
        invariant
            count <= len,
            len == text@.len(),
            used <= budget,
            fitting(text@, budget as nat) == count + fitting(
                text@.skip(count as int),
                (budget - used) as nat,
            ),
            full ==> count < len && utf8_width(text@[count as int]) > budget - used,
        decreases len - count + if full { 0int } else { 1int },
    {
        let width = char_width(text.get_char(count));
        let ghost rest = text@.skip(count as int);
        assert(rest[0] == text@[count as int]);
        assert(rest.drop_first() =~= text@.skip(count + 1));
        if width > budget - used {
            full = true;
        } else {
            used += width;
            count += 1;
        }
    }
    assert(fitting(text@, budget as nat) == count) by {
        let rest = text@.skip(count as int);
        if count < len {
            assert(rest[0] == text@[count as int]);
        }
    }
    text.substring_char(0, count)
}

/// What stands in the table in place of a change that cannot be known,
/// because a run lacks the count.
pub const UNKNOWN: &'static str = "*********";

/// What stands in the table in place of a change of nothing.
pub const NO_CHANGE: &'static str = "No change";

/// How a piece of the table is shown on a terminal that has colours.
#[derive(Debug, Clone, Copy, PartialEq, Eq, Structural)]
pub enum Style {
    /// As it is.
    Plain,
    /// Bold.
    Bold,
    /// Grey: what is no number.
    BrightBlack,
    /// Bold and red: a count that went up.
    BrightRedBold,
    /// Bold and green: a count that went down.
    BrightGreenBold,
}

/// A piece of the table: text, padded as the table needs it, and how it is
/// shown.
#[derive(Debug, Clone, PartialEq, Eq)]
pub struct Span {
    /// The text of the piece.
    pub text: String,
    /// How the piece is shown.
    pub style: Style,
}

/// Pieces as characters with their styles.
pub open spec fn spans_view(spans: Seq<Span>) -> Seq<(Seq<char>, Style)> {
    spans.map_values(|span: Span| (span.text@, span.style))
}

/// The text of the pieces, one after the other, without their styles.
pub open spec fn plain_text(spans: Seq<(Seq<char>, Style)>) -> Seq<char>
    decreases spans.len(),
{
    if spans.len() == 0 {
        Seq::empty()
    } else {
        plain_text(spans.drop_last()) + spans.last().0
    }
}

/// A change as it stands in the table: a number in a field of eight with
/// its unit behind it, or, where it is without bound, its text in a field
/// of nine filled up with plus signs.
pub open spec fn change_text(number: Seq<char>, infinite: bool, unit: Seq<char>) -> Seq<char> {
    if infinite {
        centered(number, 9, '+')
    } else {
        centered(number, 8, ' ') + unit
    }
}

/// The line that names the baselines of the two runs, the one of the new
/// run in bold; nothing where neither run has one.
pub open spec fn baselines_spans(new: Option<Seq<char>>, old: Option<Seq<char>>) -> Seq<
    (Seq<char>, Style),
> {
    match (new, old) {
        (None, None) => Seq::empty(),
        (None, Some(base)) => seq![
            ("  "@ + pad_right("Baselines:"@, 33) + "|"@ + base + "\n"@, Style::Plain),
        ],
        (Some(base), None) => seq![
            ("  "@ + pad_right("Baselines:"@, 18), Style::Plain),
            (pad_left(base, 15), Style::Bold),
            ("\n"@, Style::Plain),
        ],
        (Some(new), Some(old)) => seq![
            ("  "@ + pad_right("Baselines:"@, 18), Style::Plain),
            (pad_left(new, 15), Style::Bold),
            ("|"@ + old + "\n"@, Style::Plain),
        ],
    }
}

/// The first pieces of a row: the label at the left of its column, the new
/// count in bold at the right of its column, then a bar, the old count at
/// the left of its column and the bracket that opens the change.
pub open spec fn counts_spans(label: Seq<char>, new: Seq<char>, old: Seq<char>) -> Seq<
    (Seq<char>, Style),
> {
    seq![
        ("  "@ + pad_right(label, 18), Style::Plain),
        (pad_left(new, 15), Style::Bold),
        ("|"@ + pad_right(old, 15) + " ("@, Style::Plain),
    ]
}

/// A row of the table. A count that is missing shows as not available,
/// and the change then as unknown, in grey. Equal counts show as no change,
/// in grey. Other counts show the change in percent, red where the count
/// went up and green where it went down, and in square brackets the
/// factor, which is never below zero and shown in red. A row without any
/// count is left out.
pub open spec fn row_spans(row: Row) -> Seq<(Seq<char>, Style)> {
    match (row.diff.new, row.diff.old) {
        (None, Some(old)) => counts_spans(row.description@, NOT_AVAILABLE@, decimal(old as nat))
            + seq![(centered(UNKNOWN@, 9, ' '), Style::BrightBlack), (")\n"@, Style::Plain)],
        (Some(new), None) => counts_spans(row.description@, decimal(new as nat), NOT_AVAILABLE@)
            + seq![(centered(UNKNOWN@, 9, ' '), Style::BrightBlack), (")\n"@, Style::Plain)],
        (Some(new), Some(old)) => if new == old {
            counts_spans(row.description@, decimal(new as nat), decimal(old as nat)) + seq![
                (centered(NO_CHANGE@, 9, ' '), Style::BrightBlack),
                (")\n"@, Style::Plain),
            ]
        } else {
            counts_spans(row.description@, decimal(new as nat), decimal(old as nat)) + seq![
                (
                    centered(change_text(row.change@, row.change_infinite, "%"@), 9, ' '),
                    if new > old {
                        Style::BrightRedBold
                    } else {
                        Style::BrightGreenBold
                    },
                ),
                (") ["@, Style::Plain),
                (
                    centered(change_text(row.factor@, row.factor_infinite, "x"@), 9, ' '),
                    Style::BrightRedBold,
                ),
                ("]\n"@, Style::Plain),
            ]
        },
        (None, None) => Seq::empty(),
    }
}

/// The rows of the table, one after the other.
pub open spec fn rows_spans(rows: Seq<Row>) -> Seq<(Seq<char>, Style)>
    decreases rows.len(),
{
    if rows.len() == 0 {
        Seq::empty()
    } else {
        rows_spans(rows.drop_last()) + row_spans(rows.last())
    }
}

/// The table in pieces: the line of the baselines, then the rows.
pub open spec fn table_spans(
    new_baseline: Option<Seq<char>>,
    old_baseline: Option<Seq<char>>,
    rows: Seq<Row>,
) -> Seq<(Seq<char>, Style)> {
    baselines_spans(new_baseline, old_baseline) + rows_spans(rows)
}

/// Appends a piece.
fn push_span(out: &mut Vec<Span>, text: String, style: Style)
    ensures
        spans_view(final(out)@) == spans_view(old(out)@).push((text@, style)),
{
    let ghost before = out@;
    let ghost piece = (text@, style);
    out.push(Span { text, style });
    assert(spans_view(out@) =~= spans_view(before).push(piece));
}

/// `text` at the right of a field of `width` spaces.
fn padded_left(text: &str, width: usize) -> (cell: String)
    ensures
        cell@ == pad_left(text@, width as int),
{
    let mut cell = String::new();
    push_pad_left(&mut cell, text, width);
    assert(cell@ =~= pad_left(text@, width as int));
    cell
}

/// `text` in the middle of a field of nine spaces.
fn cell_of_nine(text: &str) -> (cell: String)
    ensures
        cell@ == centered(text@, 9, ' '),
{
    let mut cell = String::new();
    proof {
        reveal_strlit(" ");
        assert(" "@ =~= seq![' ']);
    }
    push_centered(&mut cell, text, 9, " ", Ghost(' '));
    assert(cell@ =~= centered(text@, 9, ' '));
    cell
}

/// Appends the first pieces of a row.
fn push_counts(out: &mut Vec<Span>, label: &str, new_count: &str, old_count: &str)
    ensures
        spans_view(final(out)@) == spans_view(old(out)@) + counts_spans(
            label@,
            new_count@,
            old_count@,
        ),
{
    let ghost before = spans_view(out@);
    let mut head = String::from_str("  ");
    push_pad_right(&mut head, label, 18);
    push_span(out, head, Style::Plain);
    push_span(out, padded_left(new_count, 15), Style::Bold);
    let mut middle = String::from_str("|");
    push_pad_right(&mut middle, old_count, 15);
    middle.append(" (");
    push_span(out, middle, Style::Plain);
    assert(spans_view(out@) =~= before + counts_spans(label@, new_count@, old_count@));
}

/// A change as it stands in the table.
fn change_cell(number: &str, infinite: bool, unit: &str) -> (cell: String)
    ensures
        cell@ == change_text(number@, infinite, unit@),
{
    let mut cell = String::new();
    if infinite {
        proof {
            reveal_strlit("+");
            assert("+"@ =~= seq!['+']);
        }
        push_centered(&mut cell, number, 9, "+", Ghost('+'));
    } else {
        proof {
            reveal_strlit(" ");
            assert(" "@ =~= seq![' ']);
        }
        push_centered(&mut cell, number, 8, " ", Ghost(' '));
        cell.append(unit);
    }
    assert(cell@ =~= change_text(number@, infinite, unit@));
    cell
}

/// Appends the pieces of a row.
fn push_row(out: &mut Vec<Span>, row: &Row)
    ensures
        spans_view(final(out)@) == spans_view(old(out)@) + row_spans(*row),
{
    let ghost before = spans_view(out@);
    match (row.diff.new, row.diff.old) {
        (None, Some(old_cost)) => {
            let old_text = decimal_text(old_cost);
            push_counts(out, row.description.as_str(), NOT_AVAILABLE, old_text.as_str());
            push_span(out, cell_of_nine(UNKNOWN), Style::BrightBlack);
            push_span(out, String::from_str(")\n"), Style::Plain);
        },
        (Some(new_cost), None) => {
            let new_text = decimal_text(new_cost);
            push_counts(out, row.description.as_str(), new_text.as_str(), NOT_AVAILABLE);
            push_span(out, cell_of_nine(UNKNOWN), Style::BrightBlack);
            push_span(out, String::from_str(")\n"), Style::Plain);
        },
        (Some(new_cost), Some(old_cost)) => {
            let new_text = decimal_text(new_cost);
            let old_text = decimal_text(old_cost);
            push_counts(out, row.description.as_str(), new_text.as_str(), old_text.as_str());
            if new_cost == old_cost {
                push_span(out, cell_of_nine(NO_CHANGE), Style::BrightBlack);
                push_span(out, String::from_str(")\n"), Style::Plain);
            } else {
                let change = change_cell(row.change.as_str(), row.change_infinite, "%");
                let factor = change_cell(row.factor.as_str(), row.factor_infinite, "x");
                let style = if new_cost > old_cost {
                    Style::BrightRedBold
                } else {
                    Style::BrightGreenBold
                };
                push_span(out, cell_of_nine(change.as_str()), style);
                push_span(out, String::from_str(") ["), Style::Plain);
                push_span(out, cell_of_nine(factor.as_str()), Style::BrightRedBold);
                push_span(out, String::from_str("]\n"), Style::Plain);
            }
        },
        (None, None) => {},
    }
    assert(spans_view(out@) =~= before + row_spans(*row));
}

/// Appends the line of the baselines.
fn push_baselines(out: &mut Vec<Span>, new_base: &Option<String>, old_base: &Option<String>)
    ensures
        spans_view(final(out)@) == spans_view(old(out)@) + baselines_spans(
            text_view(*new_base),
            text_view(*old_base),
        ),
{
    let ghost before = spans_view(out@);
    match (new_base, old_base) {
        (None, None) => {},
        (None, Some(base)) => {
            let mut line = String::from_str("  ");
            push_pad_right(&mut line, "Baselines:", 33);
            line.append("|");
            line.append(base.as_str());
            line.append("\n");
            push_span(out, line, Style::Plain);
        },
        (Some(base), None) => {
            let mut head = String::from_str("  ");
            push_pad_right(&mut head, "Baselines:", 18);
            push_span(out, head, Style::Plain);
            push_span(out, padded_left(base.as_str(), 15), Style::Bold);
            push_span(out, String::from_str("\n"), Style::Plain);
        },
        (Some(new_text), Some(old_text)) => {
            let mut head = String::from_str("  ");
            push_pad_right(&mut head, "Baselines:", 18);
            push_span(out, head, Style::Plain);
            push_span(out, padded_left(new_text.as_str(), 15), Style::Bold);
            let mut tail = String::from_str("|");
            tail.append(old_text.as_str());
            tail.append("\n");
            push_span(out, tail, Style::Plain);
        },
    }
    assert(spans_view(out@) =~= before + baselines_spans(
        text_view(*new_base),
        text_view(*old_base),
    ));
}

/// The table that sets the counts of two runs side by side, in pieces with
/// their styles: a line that names the baselines, if a run has one, then
/// one row per event kind.
pub fn format_vertical_styled(baselines: &(Option<String>, Option<String>), rows: &Vec<Row>) -> (table:
    Vec<Span>)
    ensures
        spans_view(table@) == table_spans(text_view(baselines.0), text_view(baselines.1), rows@),
{
    let mut table: Vec<Span> = Vec::new();
    assert(spans_view(table@) =~= Seq::<(Seq<char>, Style)>::empty());
    push_baselines(&mut table, &baselines.0, &baselines.1);
    let ghost head = baselines_spans(text_view(baselines.0), text_view(baselines.1));
    assert(spans_view(table@) =~= head);
    let mut i: usize = 0;
    assert(rows@.take(0) =~= Seq::<Row>::empty());
    assert(spans_view(table@) =~= head + rows_spans(rows@.take(0)));
    while i < rows.len()
        invariant
            i <= rows.len(),
            spans_view(table@) == head + rows_spans(rows@.take(i as int)),
        decreases rows.len() - i,
    {
        push_row(&mut table, &rows[i]);
        proof {
            let upto = rows@.take(i + 1);
            assert(upto.drop_last() =~= rows@.take(i as int));
            assert(upto.last() == rows@[i as int]);
            assert(spans_view(table@) =~= head + rows_spans(upto));
        }
        i += 1;
    }
    assert(rows@.take(rows.len() as int) =~= rows@);
    table
}

/// The text of the pieces, one after the other.
pub fn plain(spans: &Vec<Span>) -> (text: String)
    ensures
        text@ == plain_text(spans_view(spans@)),
{
    let mut text = String::new();
    let ghost pieces = spans_view(spans@);
    let mut i: usize = 0;
    assert(text@ =~= plain_text(pieces.take(0)));
    while i < spans.len()
        invariant
            i <= spans.len(),
            pieces == spans_view(spans@),
            text@ == plain_text(pieces.take(i as int)),
        decreases spans.len() - i,
    {
        text.append(spans[i].text.as_str());
        proof {
            let upto = pieces.take(i + 1);
            assert(upto.drop_last() =~= pieces.take(i as int));
            assert(upto.last().0 == spans@[i as int].text@);
        }
        i += 1;
    }
    assert(pieces.take(spans.len() as int) =~= pieces);
    text
}

/// The table that sets the counts of two runs side by side, as plain text:
/// a line that names the baselines, if a run has one, then one row per
/// event kind. It is the text of the pieces of the styled table.
pub fn format_vertical(baselines: (Option<String>, Option<String>), rows: &Vec<Row>) -> (table:
    String)
    ensures
        table@ == plain_text(
            table_spans(text_view(baselines.0), text_view(baselines.1), rows@),
        ),
{
    let spans = format_vertical_styled(&baselines, rows);
    plain(&spans)
}

/// The diffs that the table shows of a summary: for each of `kinds` that
/// the summary holds, the kind with its diff, in the order of `kinds`.
pub open spec fn shown_diffs(kinds: Seq<EventKind>, summary: Seq<(EventKind, CostsDiff)>) -> Seq<
    (EventKind, CostsDiff),
> {
    kinds.filter_map(
        |kind: EventKind|
            match value_of(summary, kind) {
                Some(diff) => Some((kind, diff)),
                None => None,
            },
    )
}

/// The kinds that the table shows by default, in the order of its rows:
/// instructions and the derived cache metrics first.
pub open spec fn default_kinds() -> Seq<EventKind> {
    seq![
        EventKind::Ir,
        EventKind::L1hits,
        EventKind::LLhits,
        EventKind::RamHits,
        EventKind::TotalRW,
        EventKind::EstimatedCycles,
        EventKind::SysCount,
        EventKind::SysTime,
        EventKind::SysCpuTime,
        EventKind::Ge,
        EventKind::Bc,
        EventKind::Bcm,
        EventKind::Bi,
        EventKind::Bim,
        EventKind::ILdmr,
        EventKind::DLdmr,
        EventKind::DLdmw,
        EventKind::AcCost1,
        EventKind::AcCost2,
        EventKind::SpLoss1,
        EventKind::SpLoss2,
    ]
}

impl Default for VerticalFormat {
    fn default() -> (format: VerticalFormat)
        ensures
            format.kinds() == default_kinds(),
    {
        let mut event_kinds: Vec<EventKind> = Vec::new();
        event_kinds.push(EventKind::Ir);
        event_kinds.push(EventKind::L1hits);
        event_kinds.push(EventKind::LLhits);
        event_kinds.push(EventKind::RamHits);
        event_kinds.push(EventKind::TotalRW);
        event_kinds.push(EventKind::EstimatedCycles);
        event_kinds.push(EventKind::SysCount);
        event_kinds.push(EventKind::SysTime);
        event_kinds.push(EventKind::SysCpuTime);
        event_kinds.push(EventKind::Ge);
        event_kinds.push(EventKind::Bc);
        event_kinds.push(EventKind::Bcm);
        event_kinds.push(EventKind::Bi);
        event_kinds.push(EventKind::Bim);
        event_kinds.push(EventKind::ILdmr);
        event_kinds.push(EventKind::DLdmr);
        event_kinds.push(EventKind::DLdmw);
        event_kinds.push(EventKind::AcCost1);
        event_kinds.push(EventKind::AcCost2);
        event_kinds.push(EventKind::SpLoss1);
        event_kinds.push(EventKind::SpLoss2);
        assert(event_kinds@ =~= default_kinds());
        VerticalFormat { event_kinds }
    }
}

impl VerticalFormat {
    /// The kinds that the table shows, in the order of its rows.
    pub closed spec fn kinds(&self) -> Seq<EventKind> {
        self.event_kinds@
    }

    /// The diffs of a summary that the table shows, in the order of its
    /// rows. A kind that the summary does not hold has no row.
    pub fn diffs(&self, costs_summary: &CostsSummary) -> (diffs: Vec<(EventKind, CostsDiff)>)
        requires
            costs_summary.wf(),
        ensures
            diffs@ == shown_diffs(self.kinds(), costs_summary@),
    {
        let ghost pick = |kind: EventKind|
            match value_of(costs_summary@, kind) {
                Some(diff) => Some((kind, diff)),
                None => None,
            };
        let mut diffs: Vec<(EventKind, CostsDiff)> = Vec::new();
        let mut i: usize = 0;
        while i < self.event_kinds.len()
            invariant
                i <= self.event_kinds.len(),
                costs_summary.wf(),
                pick == |kind: EventKind|
                    match value_of(costs_summary@, kind) {
                        Some(diff) => Some((kind, diff)),
                        None => None,
                    },
                diffs@ == self.event_kinds@.take(i as int).filter_map(pick),
            decreases self.event_kinds.len() - i,
        {
            let kind = self.event_kinds[i];
            proof {
                let upto = self.event_kinds@.take(i + 1);
                assert(upto.drop_last() =~= self.event_kinds@.take(i as int));
                assert(upto.last() == kind);
            }
            match costs_summary.diff_by_kind(&kind) {
                Some(diff) => {
                    diffs.push((kind, diff));
                },
                None => {},
            }
            assert(diffs@ =~= self.event_kinds@.take(i + 1).filter_map(pick));
            i += 1;
        }
        assert(self.event_kinds@.take(self.event_kinds.len() as int) =~= self.event_kinds@);
        diffs
    }
}

impl ValgrindTool {
    /// The name of the tool in capitals, as a headline shows it.
    pub open spec fn title_spec(&self) -> Seq<char> {
        match self {
            ValgrindTool::Callgrind => "CALLGRIND"@,
            ValgrindTool::Memcheck => "MEMCHECK"@,
            ValgrindTool::Helgrind => "HELGRIND"@,
            ValgrindTool::DRD => "DRD"@,
            ValgrindTool::Massif => "MASSIF"@,
            ValgrindTool::DHAT => "DHAT"@,
            ValgrindTool::BBV => "EXP-BBV"@,
        }
    }

    /// The name of the tool in capitals, as a headline shows it.
    pub fn title(&self) -> (title: &'static str)
        ensures
            title@ == self.title_spec(),
            title@.len() == self.id_spec().len(),
            title@.len() <= 9,
    {
        proof {
            reveal_strlit("CALLGRIND");
            reveal_strlit("MEMCHECK");
            reveal_strlit("HELGRIND");
            reveal_strlit("DRD");
            reveal_strlit("MASSIF");
            reveal_strlit("DHAT");
            reveal_strlit("EXP-BBV");
            reveal_strlit("callgrind");
            reveal_strlit("memcheck");
            reveal_strlit("helgrind");
            reveal_strlit("drd");
            reveal_strlit("massif");
            reveal_strlit("dhat");
            reveal_strlit("exp-bbv");
        }
        match self {
            ValgrindTool::Callgrind => "CALLGRIND",
            ValgrindTool::Memcheck => "MEMCHECK",
            ValgrindTool::Helgrind => "HELGRIND",
            ValgrindTool::DRD => "DRD",
            ValgrindTool::Massif => "MASSIF",
            ValgrindTool::DHAT => "DHAT",
            ValgrindTool::BBV => "EXP-BBV",
        }
    }
}

/// The headline over the output of a tool: the name of the tool in
/// capitals between two rules, the second of which is as much shorter as
/// the name is long.
pub open spec fn headline_of(tool: ValgrindTool) -> Seq<char> {
    "  "@ + "======="@ + " "@ + tool.title_spec() + " "@ + filled(
        64 - tool.id_spec().len(),
        '=',
    )
}

/// The headline over the output of a tool.
pub fn tool_headline(tool: ValgrindTool) -> (headline: String)
    ensures
        headline@ == headline_of(tool),
{
    let title = tool.title();
    let len = title.unicode_len();
    let mut headline = String::from_str("  ");
    headline.append("=======");
    headline.append(" ");
    headline.append(title);
    headline.append(" ");
    proof {
        reveal_strlit("=");
        assert("="@ =~= seq!['=']);
    }
    push_filled(&mut headline, 64 - len, "=", Ghost('='));
    assert(headline@ =~= headline_of(tool));
    headline
}

/// The line that marks the end of the output that was let through; none
/// where none was.
pub open spec fn footer_of(nocapture: NoCapture) -> Option<Seq<char>> {
    match nocapture {
        NoCapture::True => Some("-"@ + " "@ + "end of stdout/stderr"@),
        NoCapture::False => None,
        NoCapture::Stderr => Some("-"@ + " "@ + "end of stderr"@),
        NoCapture::Stdout => Some("-"@ + " "@ + "end of stdout"@),
    }
}

/// The line that marks the end of the output of the benchmarked program
/// that was let through; none where none was.
pub fn no_capture_footer(nocapture: NoCapture) -> (footer: Option<String>)
    ensures
        text_view(footer) == footer_of(nocapture),
{
    let what = match nocapture {
        NoCapture::True => "end of stdout/stderr",
        NoCapture::False => {
            return None;
        },
        NoCapture::Stderr => "end of stderr",
        NoCapture::Stdout => "end of stdout",
    };
    let mut footer = String::from_str("-");
    footer.append(" ");
    footer.append(what);
    Some(footer)
}

/// What of the output of the benchmarked program reaches the terminal:
/// a stream that is redirected is as its redirection says, piped or not,
/// and a stream that is not redirected is piped unless it is let through.
pub open spec fn reaches_terminal(
    nocapture: NoCapture,
    stdout_is_pipe: Option<bool>,
    stderr_is_pipe: Option<bool>,
) -> NoCapture {
    let stdout_piped = match stdout_is_pipe {
        Some(piped) => piped,
        None => nocapture == NoCapture::False || nocapture == NoCapture::Stderr,
    };
    let stderr_piped = match stderr_is_pipe {
        Some(piped) => piped,
        None => nocapture == NoCapture::False || nocapture == NoCapture::Stdout,
    };
    if stdout_piped && stderr_piped {
        NoCapture::False
    } else if stdout_piped {
        NoCapture::Stderr
    } else if stderr_piped {
        NoCapture::Stdout
    } else {
        NoCapture::True
    }
}

/// The footer that is due after a benchmark ran: the one for the streams
/// that reached the terminal, given what is let through and whether each
/// stream was redirected into a pipe.
pub fn due_footer(
    nocapture: NoCapture,
    stdout_is_pipe: Option<bool>,
    stderr_is_pipe: Option<bool>,
) -> (footer: Option<String>)
    ensures
        text_view(footer) == footer_of(reaches_terminal(nocapture, stdout_is_pipe, stderr_is_pipe)),
{
    let stdout_piped = match stdout_is_pipe {
        Some(piped) => piped,
        None => matches!(nocapture, NoCapture::False | NoCapture::Stderr),
    };
    let stderr_piped = match stderr_is_pipe {
        Some(piped) => piped,
        None => matches!(nocapture, NoCapture::False | NoCapture::Stdout),
    };
    match (stdout_piped, stderr_piped) {
        (true, true) => None,
        (true, false) => no_capture_footer(NoCapture::Stderr),
        (false, true) => no_capture_footer(NoCapture::Stdout),
        (false, false) => no_capture_footer(NoCapture::True),
    }
}

} // verus!
