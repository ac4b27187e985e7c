//! The text of a statement: a table of fixed width, one row per line.

use vstd::prelude::*;
use vstd::string::*;
use crate::statement::{AccountStatement, AccountStatementLine};

verus! {

/// The width of the date column.
pub const DATE_WIDTH: usize = 30;

/// The width of the amount and balance columns.
pub const NUMBER_WIDTH: usize = 10;

/// What chrono writes for the UTC instant `secs` seconds and `nanos`
/// nanoseconds after 1970-01-01T00:00:00, as year, month, day, hour, minute
/// and second with the fraction of the second behind a dot; `None` where
/// chrono has no date for the instant.
pub uninterp spec fn utc_date_text(secs: int, nanos: int) -> Option<Seq<char>>;

/// Asks chrono for the text of an instant: `DateTime::from_timestamp` makes
/// the date, `DateTime::format` with `%Y-%m-%d %H:%M:%S%.f` writes it. The
/// contract claims only that the outcome is the one chrono gives for these
/// two numbers, and gives it the name `utc_date_text`.
#[verifier::external_body]
fn date_text(secs: i64, nanos: u32) -> (text: Option<String>)
    ensures
        text is Some <==> utc_date_text(secs as int, nanos as int) is Some,
        text is Some ==> utc_date_text(secs as int, nanos as int) == Some(text->Some_0@),
{
    match chrono::DateTime::from_timestamp(secs, nanos) {
        Some(date) => Some(date.format("%Y-%m-%d %H:%M:%S%.f").to_string()),
        None => None,
    }
}

/// `count` blanks.
pub open spec fn blanks(count: nat) -> Seq<char> {
    Seq::new(count, |i: int| ' ')
}

/// `text` in the middle of a column of `width` characters; of an odd number
/// of blanks the larger half stands on the right. A text that fills the
/// column, or is wider, stays as it is.
pub open spec fn centered(text: Seq<char>, width: nat) -> Seq<char> {
    if text.len() >= width {
        text
    } else {
        let pad = (width - text.len()) as nat;
        blanks(pad / 2) + text + blanks((pad - pad / 2) as nat)
    }
}

/// `text` at the right of a column of `width` characters. A text that fills
/// the column, or is wider, stays as it is.
pub open spec fn right_aligned(text: Seq<char>, width: nat) -> Seq<char> {
    if text.len() >= width {
        text
    } else {
        blanks((width - text.len()) as nat) + text
    }
}

/// The character of a decimal digit.
pub open spec fn digit_char(digit: int) -> char {
    if digit == 0 {
        '0'
    } else if digit == 1 {
        '1'
    } else if digit == 2 {
        '2'
    } else if digit == 3 {
        '3'
    } else if digit == 4 {
        '4'
    } else if digit == 5 {
        '5'
    } else if digit == 6 {
        '6'
    } else if digit == 7 {
        '7'
    } else if digit == 8 {
        '8'
    } else {
        '9'
    }
}

/// The decimal digits of a natural number, without leading zeros.
pub open spec fn digits_of(number: nat) -> Seq<char>
    decreases number,
{
    if number < 10 {
        Seq::empty().push(digit_char(number as int))
    } else {
        digits_of(number / 10).push(digit_char((number % 10) as int))
    }
}

/// A whole number in decimal, with a minus sign where it is negative.
pub open spec fn decimal_text(number: int) -> Seq<char> {
    if number < 0 {
        Seq::empty().push('-') + digits_of((-number) as nat)
    } else {
        digits_of(number as nat)
    }
}

/// One row of the table: the first cell centred in the date column, the two
/// others at the right of the number columns, a bar between cells.
pub open spec fn row_text(first: Seq<char>, second: Seq<char>, third: Seq<char>) -> Seq<char> {
    centered(first, DATE_WIDTH as nat) + " | "@ + right_aligned(second, NUMBER_WIDTH as nat)
        + " | "@ + right_aligned(third, NUMBER_WIDTH as nat)
}

/// The row above the lines.
pub open spec fn header_text() -> Seq<char> {
    row_text("Date"@, "Amount"@, "Balance"@)
}

/// The row of a line whose date is written as `date`.
pub open spec fn line_text(date: Seq<char>, line: AccountStatementLine) -> Seq<char> {
    row_text(date, decimal_text(line.amount as int), decimal_text(line.balance as int))
}

/// The row of a line, where its date can be written.
pub open spec fn line_text_of(line: AccountStatementLine) -> Option<Seq<char>> {
    match utc_date_text(line.date.secs as int, line.date.nanos as int) {
        Some(date) => Some(line_text(date, line)),
        None => None,
    }
}

fn digit_str(digit: usize) -> (text: &'static str)
    requires
        digit < 10,
    ensures
        text@ == Seq::<char>::empty().push(digit_char(digit as int)),
{
    proof {
        reveal_strlit("0");
        reveal_strlit("1");
        reveal_strlit("2");
        reveal_strlit("3");
        reveal_strlit("4");
        reveal_strlit("5");
        reveal_strlit("6");
        reveal_strlit("7");
        reveal_strlit("8");
        reveal_strlit("9");
    }
    let text = if digit == 0 {
        "0"
    } else if digit == 1 {
        "1"
    } else if digit == 2 {
        "2"
    } else if digit == 3 {
        "3"
    } else if digit == 4 {
        "4"
    } else if digit == 5 {
        "5"
    } else if digit == 6 {
        "6"
    } else if digit == 7 {
        "7"
    } else if digit == 8 {
        "8"
    } else {
        "9"
    };
    proof {
        assert(text@ =~= Seq::<char>::empty().push(digit_char(digit as int)));
    }
    text
}

fn digits(number: usize) -> (text: String)
    ensures
        text@ == digits_of(number as nat),
    decreases number,
{
    if number < 10 {
        String::from_str(digit_str(number))
    } else {
        let mut text = digits(number / 10);
        let last = digit_str(number % 10);
        text.append(last);
        proof {
            assert(text@ =~= digits_of((number / 10) as nat).push(
                digit_char((number % 10) as int),
            ));
        }
        text
    }
}

/// Writes a whole number in decimal.
pub fn decimal(number: isize) -> (text: String)
    ensures
        text@ == decimal_text(number as int),
{
    if number < 0 {
        let magnitude: usize = (-(number + 1)) as usize + 1;
        let mut text = String::from_str("-");
        let written = digits(magnitude);
        text.append(written.as_str());
        proof {
            reveal_strlit("-");
            assert(text@ =~= Seq::<char>::empty().push('-') + digits_of((-number) as nat));
        }
        text
    } else {
        digits(number as usize)
    }
}

fn make_blanks(count: usize) -> (text: String)
    ensures
        text@ == blanks(count as nat),
{
    let mut text = String::new();
    let mut i: usize = 0;
    while i < count
        invariant
            i <= count,
            text@ =~= blanks(i as nat),
        decreases count - i,
    {
        proof {
            reveal_strlit(" ");
        }
        text.append(" ");
        i += 1;
    }
    text
}

/// Puts `text` in the middle of a column of `width` characters.
pub fn center(text: &str, width: usize) -> (cell: String)
    ensures
        cell@ == centered(text@, width as nat),
{
    let len = text.unicode_len();
    if len >= width {
        String::from_str(text)
    } else {
        let pad = width - len;
        let mut cell = make_blanks(pad / 2);
        cell.append(text);
        let right = make_blanks(pad - pad / 2);
        cell.append(right.as_str());
        cell
    }
}

/// Puts `text` at the right of a column of `width` characters.
pub fn align_right(text: &str, width: usize) -> (cell: String)
    ensures
        cell@ == right_aligned(text@, width as nat),
{
    let len = text.unicode_len();
    if len >= width {
        String::from_str(text)
    } else {
        let mut cell = make_blanks(width - len);
        cell.append(text);
        cell
    }
}

/// Writes one row of the table.
pub fn row(first: &str, second: &str, third: &str) -> (text: String)
    ensures
        text@ == row_text(first@, second@, third@),
{
    let mut text = center(first, DATE_WIDTH);
    text.append(" | ");
    let middle = align_right(second, NUMBER_WIDTH);
    text.append(middle.as_str());
    text.append(" | ");
    let last = align_right(third, NUMBER_WIDTH);
    text.append(last.as_str());
    text
}

impl AccountStatementLine {
    /// The row above the lines of a statement.
    pub fn header() -> (text: String)
        ensures
            text@ == header_text(),
    {
        row("Date", "Amount", "Balance")
    }

    /// The row of this line, its date written as `date`.
    pub fn to_text_with_date(&self, date: &str) -> (text: String)
        ensures
            text@ == line_text(date@, *self),
    {
        let amount = decimal(self.amount);
        let balance = decimal(self.balance);
        row(date, amount.as_str(), balance.as_str())
    }

    /// The row of this line, or `None` where its date cannot be written.
    pub fn to_text(&self) -> (text: Option<String>)
        ensures
            text is Some <==> line_text_of(*self) is Some,
            text is Some ==> line_text_of(*self) == Some(text->Some_0@),
    {
        match date_text(self.date.secs, self.date.nanos) {
            Some(date) => Some(self.to_text_with_date(date.as_str())),
            None => None,
        }
    }
}

impl AccountStatement {
    /// The table of the statement, row by row: the header, then one row for
    /// each line in the order of the statement. `None` where the date of
    /// some line cannot be written.
    pub fn to_text(&self) -> (table: Option<Vec<String>>)
        ensures
            table is Some <==> (forall|k: int|
                0 <= k < self@.len() ==> line_text_of(#[trigger] self@[k]) is Some),
            table is Some ==> {
                let rows = table->Some_0@;
                &&& rows.len() == self@.len() + 1
                &&& rows[0]@ == header_text()
                &&& forall|k: int|
                    0 <= k < self@.len() ==> line_text_of(#[trigger] self@[k]) == Some(
                        rows[k + 1]@,
                    )
            },
    {
        let mut rows: Vec<String> = Vec::new();
        rows.push(AccountStatementLine::header());
        let mut i: usize = 0;
        while i < self.lines.len()
            invariant
                i <= self.lines.len(),
                rows@.len() == i + 1,
                rows@[0]@ == header_text(),
                forall|k: int|
                    0 <= k < i ==> line_text_of(#[trigger] self@[k]) == Some(rows@[k + 1]@),
            decreases self.lines.len() - i,
        {
            match self.lines[i].to_text() {
                Some(text) => {
                    rows.push(text);
                },
                None => {
                    return None;
                },
            }
            i += 1;
        }
        Some(rows)
    }
}

} // verus!
