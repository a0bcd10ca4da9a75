//! Locale-aware rendering of cell values: a formatter bundles a date pattern
//! and a decimal separator, and every value kind renders to characters under
//! exact specifications.

use vstd::prelude::*;

use crate::models::{CellType, Date, DateTime, DateToken, Fixed, QuoteMode};
use crate::text::{
    append_chars, chars_of, lemma_padded_len, lemma_padded_quote_free, lemma_quote_free_concat,
    lemma_udec_len, lemma_udec_quote_free, padded_chars, pow10, quote_free, spec_is_digit,
    spec_padded, spec_udec, udec_chars,
};

verus! {

/// The locale policy for rendering: how dates are laid out and which
/// character separates the integer and fractional parts of a decimal number.
#[derive(Debug, Clone)]
pub struct CellFormatter {
    pub date_pattern: Vec<DateToken>,
    pub decimal_separator: char,
}

/// The ISO date layout: four-digit year, month, day, separated by dashes.
pub open spec fn spec_iso_pattern() -> Seq<DateToken> {
    seq![
        DateToken::Year,
        DateToken::Literal('-'),
        DateToken::Month,
        DateToken::Literal('-'),
        DateToken::Day,
    ]
}

/// The French date layout: day, month, four-digit year, separated by slashes.
pub open spec fn spec_fr_pattern() -> Seq<DateToken> {
    seq![
        DateToken::Day,
        DateToken::Literal('/'),
        DateToken::Month,
        DateToken::Literal('/'),
        DateToken::Year,
    ]
}

impl CellFormatter {
    /// ISO dates and a dot as decimal separator.
    pub fn new_iso() -> (r: CellFormatter)
        ensures
            r.date_pattern@ == spec_iso_pattern(),
            r.decimal_separator == '.',
    {
        let mut p: Vec<DateToken> = Vec::new();
        p.push(DateToken::Year);
        p.push(DateToken::Literal('-'));
        p.push(DateToken::Month);
        p.push(DateToken::Literal('-'));
        p.push(DateToken::Day);
        proof {
            assert(p@ =~= spec_iso_pattern());
        }
        CellFormatter { date_pattern: p, decimal_separator: '.' }
    }

    /// French dates and a comma as decimal separator.
    pub fn new_fr() -> (r: CellFormatter)
        ensures
            r.date_pattern@ == spec_fr_pattern(),
            r.decimal_separator == ',',
    {
        let mut p: Vec<DateToken> = Vec::new();
        p.push(DateToken::Day);
        p.push(DateToken::Literal('/'));
        p.push(DateToken::Month);
        p.push(DateToken::Literal('/'));
        p.push(DateToken::Year);
        proof {
            assert(p@ =~= spec_fr_pattern());
        }
        CellFormatter { date_pattern: p, decimal_separator: ',' }
    }

    /// The same formatter with another date layout.
    pub fn with_date_pattern(self, date_pattern: Vec<DateToken>) -> (r: CellFormatter)
        ensures
            r.date_pattern == date_pattern,
            r.decimal_separator == self.decimal_separator,
    {
        CellFormatter { date_pattern, ..self }
    }

    /// The same formatter with another decimal separator.
    pub fn with_decimal_separator(self, decimal_separator: char) -> (r: CellFormatter)
        ensures
            r.date_pattern == self.date_pattern,
            r.decimal_separator == decimal_separator,
    {
        CellFormatter { decimal_separator, ..self }
    }
}

/// The text of one date-pattern token for a given date: day and month are
/// zero-padded to two digits, the year to four.
pub open spec fn spec_token_text(t: DateToken, d: Date) -> Seq<char> {
    match t {
        DateToken::Day => spec_padded(d.day as nat, 2),
        DateToken::Month => spec_padded(d.month as nat, 2),
        DateToken::Year => spec_padded(d.year as nat, 4),
        DateToken::Literal(c) => seq![c],
    }
}

/// The date rendered under a pattern: the texts of its tokens, in order.
pub open spec fn spec_date_text(pattern: Seq<DateToken>, d: Date) -> Seq<char>
    decreases pattern.len(),
{
    if pattern.len() == 0 {
        Seq::empty()
    } else {
        spec_date_text(pattern.drop_last(), d) + spec_token_text(pattern.last(), d)
    }
}

/// A date-time rendered: the date under the pattern, then a literal `T` and
/// the time of day to minute precision.
pub open spec fn spec_datetime_text(pattern: Seq<DateToken>, dt: DateTime) -> Seq<char> {
    spec_date_text(pattern, dt.date) + seq!['T'] + spec_padded(dt.hour as nat, 2) + seq![':']
        + spec_padded(dt.minute as nat, 2)
}

/// A decimal number rendered: optional minus sign, the whole units, the
/// decimal separator, and exactly three digits of thousandths.
pub open spec fn spec_fixed_text(f: Fixed, sep: char) -> Seq<char> {
    (if f.neg {
        seq!['-']
    } else {
        Seq::<char>::empty()
    }) + spec_udec((f.milli / 1000) as nat) + seq![sep] + spec_padded((f.milli % 1000) as nat, 3)
}

/// An integer rendered in decimal, with a minus sign when negative.
pub open spec fn spec_int_text(n: int) -> Seq<char> {
    if n < 0 {
        seq!['-'] + spec_udec((-n) as nat)
    } else {
        spec_udec(n as nat)
    }
}

/// The canonical text of a cell value under a formatter. An absent value of
/// any kind is empty text.
pub open spec fn spec_value_text(v: CellType, fmt: CellFormatter) -> Seq<char> {
    match v {
        CellType::Text(o) => match o {
            Some(s) => s@,
            None => Seq::empty(),
        },
        CellType::Date(o) => match o {
            Some(d) => spec_date_text(fmt.date_pattern@, d),
            None => Seq::empty(),
        },
        CellType::DateTime(o) => match o {
            Some(dt) => spec_datetime_text(fmt.date_pattern@, dt),
            None => Seq::empty(),
        },
        CellType::Float32(o) => match o {
            Some(f) => spec_fixed_text(f, fmt.decimal_separator),
            None => Seq::empty(),
        },
        CellType::Float64(o) => match o {
            Some(f) => spec_fixed_text(f, fmt.decimal_separator),
            None => Seq::empty(),
        },
        CellType::Int(o) => match o {
            Some(n) => spec_int_text(n as int),
            None => Seq::empty(),
        },
    }
}

/// True of the textual kind: text cells, present or absent. Only this kind
/// is quoted under the mixed mode.
pub open spec fn spec_is_textual(v: CellType) -> bool {
    v is Text
}

/// True when a value of the given kind is wrapped in quotes under `mode`.
pub open spec fn spec_should_quote(textual: bool, mode: QuoteMode) -> bool {
    match mode {
        QuoteMode::NoQuotes => false,
        QuoteMode::Mixed => textual,
        QuoteMode::All => true,
    }
}

/// The final cell text: the rendered value, wrapped in double quotes when
/// the mode asks it of the value's kind.
pub open spec fn spec_quoted_text(t: Seq<char>, textual: bool, mode: QuoteMode) -> Seq<char> {
    if spec_should_quote(textual, mode) {
        seq!['"'] + t + seq!['"']
    } else {
        t
    }
}

/// True when every literal of the date pattern and the decimal separator
/// are something other than a double quote.
pub open spec fn spec_formatter_quote_free(fmt: CellFormatter) -> bool {
    &&& fmt.decimal_separator != '"'
    &&& forall|k: int|
        0 <= k < fmt.date_pattern@.len() ==> ((#[trigger] fmt.date_pattern@[k]) matches
            DateToken::Literal(c) ==> c != '"')
}

/// A rendered date has no quote when no pattern literal is one.
pub proof fn lemma_date_text_quote_free(pattern: Seq<DateToken>, d: Date)
    requires
        forall|k: int|
            0 <= k < pattern.len() ==> ((#[trigger] pattern[k]) matches DateToken::Literal(c)
                ==> c != '"'),
    ensures
        quote_free(spec_date_text(pattern, d)),
    decreases pattern.len(),
{
    if pattern.len() > 0 {
        assert(forall|k: int|
            0 <= k < pattern.drop_last().len() ==> ((#[trigger] pattern.drop_last()[k]) matches
                DateToken::Literal(c) ==> c != '"'));
        lemma_date_text_quote_free(pattern.drop_last(), d);
        let t = pattern.last();
        assert(quote_free(spec_token_text(t, d))) by {
            match t {
                DateToken::Day => lemma_padded_quote_free(d.day as nat, 2),
                DateToken::Month => lemma_padded_quote_free(d.month as nat, 2),
                DateToken::Year => lemma_padded_quote_free(d.year as nat, 4),
                DateToken::Literal(c) => {
                    assert(pattern[pattern.len() - 1] == t);
                    assert(quote_free(seq![c]));
                },
            }
        }
        lemma_quote_free_concat(spec_date_text(pattern.drop_last(), d), spec_token_text(t, d));
    }
}

/// A rendered value has no quote when the text itself, the pattern literals
/// and the decimal separator have none.
pub proof fn lemma_value_text_quote_free(v: CellType, fmt: CellFormatter)
    requires
        spec_formatter_quote_free(fmt),
        v matches CellType::Text(o) ==> (o matches Some(s) ==> quote_free(s@)),
    ensures
        quote_free(spec_value_text(v, fmt)),
{
    match v {
        CellType::Text(o) => {},
        CellType::Date(o) => match o {
            Some(d) => lemma_date_text_quote_free(fmt.date_pattern@, d),
            None => {},
        },
        CellType::DateTime(o) => match o {
            Some(dt) => {
                lemma_date_text_quote_free(fmt.date_pattern@, dt.date);
                lemma_padded_quote_free(dt.hour as nat, 2);
                lemma_padded_quote_free(dt.minute as nat, 2);
                let a = spec_date_text(fmt.date_pattern@, dt.date);
                lemma_quote_free_concat(a, seq!['T']);
                lemma_quote_free_concat(a + seq!['T'], spec_padded(dt.hour as nat, 2));
                lemma_quote_free_concat(a + seq!['T'] + spec_padded(dt.hour as nat, 2), seq![':']);
                lemma_quote_free_concat(
                    a + seq!['T'] + spec_padded(dt.hour as nat, 2) + seq![':'],
                    spec_padded(dt.minute as nat, 2),
                );
            },
            None => {},
        },
        CellType::Float32(o) => match o {
            Some(f) => lemma_fixed_text_quote_free(f, fmt.decimal_separator),
            None => {},
        },
        CellType::Float64(o) => match o {
            Some(f) => lemma_fixed_text_quote_free(f, fmt.decimal_separator),
            None => {},
        },
        CellType::Int(o) => match o {
            Some(n) => {
                lemma_udec_quote_free(if n < 0 {
                    (-(n as int)) as nat
                } else {
                    n as nat
                });
                if n < 0 {
                    lemma_quote_free_concat(seq!['-'], spec_udec((-(n as int)) as nat));
                }
            },
            None => {},
        },
    }
}

/// A rendered decimal number has no quote when the separator is none.
pub proof fn lemma_fixed_text_quote_free(f: Fixed, sep: char)
    requires
        sep != '"',
    ensures
        quote_free(spec_fixed_text(f, sep)),
{
    let sign: Seq<char> = if f.neg {
        seq!['-']
    } else {
        Seq::<char>::empty()
    };
    lemma_udec_quote_free((f.milli / 1000) as nat);
    lemma_padded_quote_free((f.milli % 1000) as nat, 3);
    lemma_quote_free_concat(sign, spec_udec((f.milli / 1000) as nat));
    lemma_quote_free_concat(sign + spec_udec((f.milli / 1000) as nat), seq![sep]);
    lemma_quote_free_concat(
        sign + spec_udec((f.milli / 1000) as nat) + seq![sep],
        spec_padded((f.milli % 1000) as nat, 3),
    );
}

/// Renders a date under a pattern.
pub fn format_date(pattern: &Vec<DateToken>, d: &Date) -> (r: Vec<char>)
    ensures
        r@ == spec_date_text(pattern@, *d),
{
    let mut r: Vec<char> = Vec::new();
    let mut i: usize = 0;
    while i < pattern.len()
        invariant
            i <= pattern.len(),
            r@ == spec_date_text(pattern@.take(i as int), *d),
        decreases pattern.len() - i,
    {
        proof {
            assert(pattern@.take(i + 1).drop_last() =~= pattern@.take(i as int));
            assert(pattern@.take(i + 1).last() == pattern@[i as int]);
        }
        match pattern[i] {
            DateToken::Day => {
                let mut t = padded_chars(d.day as u64, 2);
                append_chars(&mut r, &t);
            },
            DateToken::Month => {
                let mut t = padded_chars(d.month as u64, 2);
                append_chars(&mut r, &t);
            },
            DateToken::Year => {
                let mut t = padded_chars(d.year as u64, 4);
                append_chars(&mut r, &t);
            },
            DateToken::Literal(c) => {
                r.push(c);
                proof {
                    assert(spec_token_text(pattern@[i as int], *d) =~= seq![
                        pattern@[i as int]->Literal_0,
                    ]);
                }
            },
        }
        i += 1;
    }
    proof {
        assert(pattern@.take(pattern@.len() as int) =~= pattern@);
    }
    r
}

/// Renders a date-time: the date, a literal `T`, then `HH:MM`.
pub fn format_datetime(pattern: &Vec<DateToken>, dt: &DateTime) -> (r: Vec<char>)
    ensures
        r@ == spec_datetime_text(pattern@, *dt),
{
    let mut r = format_date(pattern, &dt.date);
    r.push('T');
    let hh = padded_chars(dt.hour as u64, 2);
    append_chars(&mut r, &hh);
    r.push(':');
    let mm = padded_chars(dt.minute as u64, 2);
    append_chars(&mut r, &mm);
    proof {
        assert(r@ =~= spec_datetime_text(pattern@, *dt));
    }
    r
}

/// Renders a decimal number with exactly three digits of thousandths.
pub fn format_fixed(f: &Fixed, sep: char) -> (r: Vec<char>)
    ensures
        r@ == spec_fixed_text(*f, sep),
{
    let mut r: Vec<char> = Vec::new();
    if f.neg {
        r.push('-');
    }
    let units = udec_chars(f.milli / 1000);
    append_chars(&mut r, &units);
    r.push(sep);
    let frac = padded_chars(f.milli % 1000, 3);
    append_chars(&mut r, &frac);
    proof {
        assert(r@ =~= spec_fixed_text(*f, sep));
    }
    r
}

/// Renders an integer in decimal.
pub fn format_int(n: i32) -> (r: Vec<char>)
    ensures
        r@ == spec_int_text(n as int),
{
    if n < 0 {
        let mut r: Vec<char> = Vec::new();
        r.push('-');
        let wide: i64 = n as i64;
        let mag = udec_chars((-wide) as u64);
        append_chars(&mut r, &mag);
        proof {
            assert(r@ =~= spec_int_text(n as int));
        }
        r
    } else {
        udec_chars(n as u64)
    }
}

/// Renders a cell value to its canonical text.
pub fn render_value(v: &CellType, fmt: &CellFormatter) -> (r: Vec<char>)
    ensures
        r@ == spec_value_text(*v, *fmt),
{
    match v {
        CellType::Text(o) => match o {
            Some(s) => chars_of(s.as_str()),
            None => Vec::new(),
        },
        CellType::Date(o) => match o {
            Some(d) => format_date(&fmt.date_pattern, d),
            None => Vec::new(),
        },
        CellType::DateTime(o) => match o {
            Some(dt) => format_datetime(&fmt.date_pattern, dt),
            None => Vec::new(),
        },
        CellType::Float32(o) => match o {
            Some(f) => format_fixed(f, fmt.decimal_separator),
            None => Vec::new(),
        },
        CellType::Float64(o) => match o {
            Some(f) => format_fixed(f, fmt.decimal_separator),
            None => Vec::new(),
        },
        CellType::Int(o) => match o {
            Some(n) => format_int(*n),
            None => Vec::new(),
        },
    }
}

/// True of text cells, present or absent.
pub fn is_textual(v: &CellType) -> (b: bool)
    ensures
        b == spec_is_textual(*v),
{
    matches!(v, CellType::Text(_))
}

/// Whether a value of the given kind is quoted under `mode`.
pub fn should_quote(textual: bool, mode: QuoteMode) -> (b: bool)
    ensures
        b == spec_should_quote(textual, mode),
{
    match mode {
        QuoteMode::NoQuotes => false,
        QuoteMode::Mixed => textual,
        QuoteMode::All => true,
    }
}

/// Wraps the rendered text in double quotes when the mode asks it.
pub fn apply_quotes(t: Vec<char>, textual: bool, mode: QuoteMode) -> (r: Vec<char>)
    ensures
        r@ == spec_quoted_text(t@, textual, mode),
{
    if should_quote(textual, mode) {
        let mut r: Vec<char> = Vec::new();
        r.push('"');
        append_chars(&mut r, &t);
        r.push('"');
        proof {
            assert(r@ =~= seq!['"'] + t@ + seq!['"']);
        }
        r
    } else {
        t
    }
}

/// An absent value of any kind renders as empty text, and the cell then
/// still follows the quoting rule of its kind: under a mode that quotes the
/// kind the cell is a bare pair of quotes, otherwise it is empty.
pub proof fn lemma_absent_renders_empty(v: CellType, fmt: CellFormatter, mode: QuoteMode)
    requires
        match v {
            CellType::Text(o) => o is None,
            CellType::Date(o) => o is None,
            CellType::DateTime(o) => o is None,
            CellType::Float32(o) => o is None,
            CellType::Float64(o) => o is None,
            CellType::Int(o) => o is None,
        },
    ensures
        spec_value_text(v, fmt).len() == 0,
        spec_quoted_text(spec_value_text(v, fmt), spec_is_textual(v), mode) == if spec_should_quote(
            spec_is_textual(v),
            mode,
        ) {
            seq!['"', '"']
        } else {
            Seq::<char>::empty()
        },
{
    assert(spec_value_text(v, fmt) =~= Seq::<char>::empty());
    if spec_should_quote(spec_is_textual(v), mode) {
        assert(spec_quoted_text(spec_value_text(v, fmt), spec_is_textual(v), mode) =~= seq![
            '"',
            '"',
        ]);
    }
}

/// A rendered decimal number ends in the decimal separator followed by
/// exactly three digit characters.
pub proof fn lemma_fixed_three_decimals(f: Fixed, sep: char)
    ensures
        spec_fixed_text(f, sep).len() >= 5,
        spec_fixed_text(f, sep)[spec_fixed_text(f, sep).len() - 4] == sep,
        forall|j: int|
            spec_fixed_text(f, sep).len() - 3 <= j < spec_fixed_text(f, sep).len()
                ==> spec_is_digit(#[trigger] spec_fixed_text(f, sep)[j]),
{
    let s = spec_fixed_text(f, sep);
    let sign: Seq<char> = if f.neg {
        seq!['-']
    } else {
        Seq::<char>::empty()
    };
    let units = spec_udec((f.milli / 1000) as nat);
    let thous = (f.milli % 1000) as nat;
    let frac = spec_padded(thous, 3);
    assert(pow10(0) == 1);
    assert(pow10(1) == 10);
    assert(pow10(2) == 100);
    assert(pow10(3) == 1000);
    lemma_udec_len(thous, 3);
    lemma_padded_len(thous, 3);
    crate::text::lemma_udec_nonempty((f.milli / 1000) as nat);
    assert(s == sign + units + seq![sep] + frac);
    assert(s.len() == sign.len() + units.len() + 4);
    assert(s[s.len() - 4] == sep);
    assert forall|j: int| s.len() - 3 <= j < s.len() implies spec_is_digit(s[j]) by {
        assert(s[j] == frac[j - (s.len() - 3)]);
    }
}

} // verus!
