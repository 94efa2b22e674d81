//! The listing: one row per entry, with a checkbox, the position of the
//! entry, and its text in the colours of its state.

use vstd::prelude::*;
use colored::Colorize;
use crate::record::{views, Record, RecordView, StoreError};
use crate::store::{load, load_spec};

verus! {

/// How the text of an entry is shown.
#[derive(Clone, Copy, Debug, PartialEq, Eq, Structural)]
pub enum Style {
    /// The entry is done.
    Done,
    /// The entry is urgent and not done.
    Urgent,
    /// The entry is neither.
    Plain,
}

/// The style of an entry: being done wins over being urgent.
pub open spec fn style_spec(record: RecordView) -> Style {
    if record.done {
        Style::Done
    } else if record.urgent {
        Style::Urgent
    } else {
        Style::Plain
    }
}

/// The character that stands for a digit.
pub open spec fn digit_spec(d: nat) -> char {
    seq!['0', '1', '2', '3', '4', '5', '6', '7', '8', '9'][d as int]
}

/// The decimal numeral of a number, without leading zeros.
pub open spec fn decimal_spec(n: nat) -> Seq<char>
    decreases n,
{
    if n < 10 {
        seq![digit_spec(n)]
    } else {
        decimal_spec(n / 10).push(digit_spec(n % 10))
    }
}

/// The checkbox of an entry: ticked where the entry is done.
pub open spec fn checkbox_spec(done: bool) -> Seq<char> {
    if done {
        seq!['\u{2611}']
    } else {
        seq!['\u{2610}']
    }
}

/// What a row starts with: the checkbox, a space, and the position in square
/// brackets, followed by a space.
pub open spec fn row_prefix_spec(id: nat, done: bool) -> Seq<char> {
    checkbox_spec(done) + seq![' ', '['] + decimal_spec(id) + seq![']', ' ']
}

/// The row of an entry whose text is shown as `shown`.
pub open spec fn row_spec(id: nat, done: bool, shown: Seq<char>) -> Seq<char> {
    row_prefix_spec(id, done) + shown
}

/// `shown` holds `text` as one piece: some characters may stand before it
/// and some after it, and none within it.
pub open spec fn holds_text(shown: Seq<char>, text: Seq<char>) -> bool {
    exists|before: Seq<char>, after: Seq<char>| shown == before + text + after
}

/// The text holds no escape character, so that it cannot end a colour on its
/// own.
pub open spec fn escape_free(text: Seq<char>) -> bool {
    !text.contains('\u{1b}')
}

/// `row` is a row of the entry at position `id`: the checkbox and the
/// position of the entry, and then its text as the terminal is to show it,
/// which holds the text of the entry as one piece where that text holds no
/// escape character. Whether escape sequences for the colours stand around
/// the text depends on the environment of the process.
pub open spec fn is_row_of(row: Seq<char>, id: nat, record: RecordView) -> bool {
    exists|shown: Seq<char>|
        {
            &&& row == #[trigger] row_spec(id, record.done, shown)
            &&& escape_free(record.text) ==> holds_text(shown, record.text)
        }
}

/// `rows` are the rows of a list: one row per entry, in the order of the
/// entries, each with the position of its entry.
pub open spec fn are_rows_of(rows: Seq<String>, records: Seq<RecordView>) -> bool {
    &&& rows.len() == records.len()
    &&& forall|k: int| 0 <= k < rows.len() ==> is_row_of(#[trigger] rows[k]@, k as nat, records[k])
}

/// Picks the style of an entry.
pub fn style_of(record: &Record) -> (style: Style)
    ensures
        style == style_spec(record@),
{
    if record.done {
        Style::Done
    } else if record.urgent {
        Style::Urgent
    } else {
        Style::Plain
    }
}

/// `colored::Colorize::red` and the `Display` of the `ColoredString` that
/// it gives: what is printed for `text` in red. That is `text` itself where
/// colours are switched off, and `text` between the escape sequences that
/// switch red on and all colours off where they are switched on. Which of the
/// two depends on the environment of the process, so the contract claims only
/// what holds of both: `text` stands in the result as one piece. Where `text`
/// holds the sequence that switches colours off, `colored` puts the colour
/// anew after it, within the text; such a sequence starts with an escape
/// character, and of a text with one nothing is claimed.
#[verifier::external_body]
fn show_red(text: &str) -> (shown: String)
    ensures
        escape_free(text@) ==> holds_text(shown@, text@),
{
    text.red().to_string()
}

/// `colored::Colorize::red`, then `green`, and the `Display` of the
/// `ColoredString` that they give: what is printed for `text` in green. The
/// contract claims of it what `show_red` claims.
#[verifier::external_body]
fn show_green(text: &str) -> (shown: String)
    ensures
        escape_free(text@) ==> holds_text(shown@, text@),
{
    text.red().green().to_string()
}

/// `colored::Colorize::red`, then `bold` and `italic`, and the `Display` of
/// the `ColoredString` that they give: what is printed for `text` in red, bold
/// italics. The contract claims of it what `show_red` claims.
#[verifier::external_body]
fn show_red_bold_italic(text: &str) -> (shown: String)
    ensures
        escape_free(text@) ==> holds_text(shown@, text@),
{
    text.red().bold().italic().to_string()
}

/// The text as the terminal is to show it in a style: red, but green where
/// the entry is done, and bold italics where it is urgent.
pub fn paint(text: &str, style: Style) -> (shown: String)
    ensures
        escape_free(text@) ==> holds_text(shown@, text@),
{
    match style {
        Style::Done => show_green(text),
        Style::Urgent => show_red_bold_italic(text),
        Style::Plain => show_red(text),
    }
}

/// The character of a digit.
fn digit(d: usize) -> (c: char)
    requires
        d < 10,
    ensures
        c == digit_spec(d as nat),
{
    match d {
        0 => '0',
        1 => '1',
        2 => '2',
        3 => '3',
        4 => '4',
        5 => '5',
        6 => '6',
        7 => '7',
        8 => '8',
        _ => '9',
    }
}

/// Appends the decimal numeral of `n` to `out`.
fn push_decimal(out: &mut String, n: usize)
    ensures
        final(out)@ == old(out)@ + decimal_spec(n as nat),
    decreases n,
{
    if n >= 10 {
        push_decimal(out, n / 10);
    }
    out.push(digit(n % 10));
    assert(out@ =~= old(out)@ + decimal_spec(n as nat));
}

/// Writes the row of the entry at position `id`, given its text as the
/// terminal is to show it.
pub fn format_row(id: usize, done: bool, shown: &str) -> (row: String)
    ensures
        row@ == row_spec(id as nat, done, shown@),
{
    let mut row = String::new();
    row.push(if done { '\u{2611}' } else { '\u{2610}' });
    row.push(' ');
    row.push('[');
    push_decimal(&mut row, id);
    row.push(']');
    row.push(' ');
    row.append(shown);
    assert(row@ =~= row_spec(id as nat, done, shown@));
    row
}

/// The rows of a list, one per entry and in order.
pub fn rows(records: &Vec<Record>) -> (rows: Vec<String>)
    ensures
        are_rows_of(rows@, views(records@)),
{
    let mut rows: Vec<String> = Vec::new();
    let mut i: usize = 0;
    while i < records.len()
        invariant
            i <= records.len(),
            rows.len() == i,
            forall|k: int| 0 <= k < i ==> is_row_of(#[trigger] rows[k]@, k as nat, records[k]@),
        decreases records.len() - i,
    {
        let record = &records[i];
        let shown = paint(record.text.as_str(), style_of(record));
        let row = format_row(i, record.done, shown.as_str());
        assert(row@ == row_spec(i as nat, record@.done, shown@));
        rows.push(row);
        i += 1;
    }
    rows
}

/// Reads a text as a list and gives its rows.
pub fn list(content: &str) -> (result: Result<Vec<String>, StoreError>)
    ensures
        match result {
            Ok(rows) => load_spec(content@) matches Ok(records) && are_rows_of(rows@, records),
            Err(e) => load_spec(content@) == Err::<Seq<RecordView>, StoreError>(e),
        },
{
    match load(content) {
        Ok(records) => Ok(rows(&records)),
        Err(e) => Err(e),
    }
}

} // verus!
