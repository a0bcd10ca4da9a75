//! The plain value types of the library: quoting modes, line endings, field
//! separators, date-pattern tokens, and the typed scalar a cell can hold.

use vstd::prelude::*;

verus! {

/// When rendered cell text is wrapped in double quotes.
#[derive(Debug, Clone, Copy, PartialEq, Eq, Structural)]
pub enum QuoteMode {
    NoQuotes,
    Mixed,
    All,
}

/// The line terminator put between rows.
#[derive(Debug, Clone, Copy, PartialEq, Eq, Structural)]
pub enum Eol {
    Unix,
    Windows,
}

/// The delimiter put between the cells of a row.
#[derive(Debug, Clone, Copy, PartialEq, Eq, Structural)]
pub enum FieldSeparator {
    Comma,
    SemiColumn,
}

/// A calendar date held as plain year, month and day numbers.
#[derive(Debug, Clone, Copy, PartialEq, Eq, Structural)]
pub struct Date {
    pub year: u16,
    pub month: u8,
    pub day: u8,
}

/// A date together with a time of day, kept to minute precision.
#[derive(Debug, Clone, Copy, PartialEq, Eq, Structural)]
pub struct DateTime {
    pub date: Date,
    pub hour: u8,
    pub minute: u8,
}

/// A decimal number held as a count of thousandths, with its sign apart so
/// that negative values rounding to zero keep their minus sign. Cells render
/// it with exactly three digits after the decimal separator.
#[derive(Debug, Clone, Copy, PartialEq, Eq, Structural)]
pub struct Fixed {
    pub neg: bool,
    pub milli: u64,
}

/// One piece of a date pattern: a zero-padded field or a literal character.
#[derive(Debug, Clone, Copy, PartialEq, Eq, Structural)]
pub enum DateToken {
    Day,
    Month,
    Year,
    Literal(char),
}

/// The typed scalar of one cell. Every kind may be absent; an absent value
/// renders as empty text but keeps its kind, so quoting still sees whether
/// the cell is textual.
#[derive(Debug, Clone)]
pub enum CellType {
    Text(Option<String>),
    Date(Option<Date>),
    DateTime(Option<DateTime>),
    Float32(Option<Fixed>),
    Float64(Option<Fixed>),
    Int(Option<i32>),
}

impl Date {
    /// True when the fields stay in the ranges a calendar date can have.
    pub open spec fn wf(self) -> bool {
        self.year <= 9999 && 1 <= self.month <= 12 && 1 <= self.day <= 31
    }

    pub fn new(year: u16, month: u8, day: u8) -> (r: Date)
        requires
            year <= 9999,
            1 <= month <= 12,
            1 <= day <= 31,
        ensures
            r == (Date { year, month, day }),
            r.wf(),
    {
        Date { year, month, day }
    }
}

impl DateTime {
    /// True when the date is well formed and the time of day is in range.
    pub open spec fn wf(self) -> bool {
        self.date.wf() && self.hour < 24 && self.minute < 60
    }

    pub fn new(date: Date, hour: u8, minute: u8) -> (r: DateTime)
        requires
            date.wf(),
            hour < 24,
            minute < 60,
        ensures
            r == (DateTime { date, hour, minute }),
            r.wf(),
    {
        DateTime { date, hour, minute }
    }
}

impl Fixed {
    /// The value `units.thousandths`, negated under `neg`.
    pub fn new(neg: bool, units: u64, thousandths: u16) -> (r: Fixed)
        requires
            thousandths < 1000,
            units <= (u64::MAX - 999) / 1000,
        ensures
            r.neg == neg,
            r.milli == units * 1000 + thousandths,
    {
        Fixed { neg, milli: units * 1000 + thousandths as u64 }
    }
}

} // verus!
