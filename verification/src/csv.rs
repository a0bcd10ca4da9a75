//! The serializer: rows of cells are rendered, quoted and joined under a
//! configuration and a formatter, with an optional translated header line.

use vstd::prelude::*;

use crate::cell::{spec_titles, Cell};
use crate::config::Config;
use crate::formatter::{
    apply_quotes, is_textual, lemma_value_text_quote_free, render_value,
    spec_formatter_quote_free, spec_fr_pattern, spec_is_textual, spec_iso_pattern,
    spec_quoted_text, spec_value_text, CellFormatter,
};
use crate::i18n::{lemma_resolved_title_quote_free, spec_resolve, spec_resolved_title, spec_table_quote_free};
use crate::models::{Eol, FieldSeparator, QuoteMode};
use crate::text::{
    append_chars, chars_of, lemma_join_push, lemma_join_quote_free, lemma_quote_free_concat,
    quote_free, spec_join, string_from_chars,
};

verus! {

/// A record that can expose its data as an ordered list of cells. Implement
/// this for a type to serialize collections of it; the column order is the
/// order of the returned cells.
pub trait CellsBuilder {
    /// The cells of this record, in column order. An implementor under the
    /// verifier overrides this to describe what `get_cells` returns; the
    /// empty default is for implementors outside it, of which the verifier
    /// can claim nothing.
    open spec fn cells(&self) -> Seq<Cell> {
        Seq::empty()
    }

    /// Produces the record's cells, exactly as `cells` describes them.
    fn get_cells(&self) -> (r: Vec<Cell>)
        ensures
            r@ == self.cells(),
    ;
}

/// The serializer: an output configuration together with a formatter.
#[derive(Debug, Clone)]
pub struct Csv {
    pub config: Config,
    pub formatter: CellFormatter,
}

/// The delimiter as text.
pub open spec fn spec_sep_text(s: FieldSeparator) -> Seq<char> {
    match s {
        FieldSeparator::Comma => seq![','],
        FieldSeparator::SemiColumn => seq![';'],
    }
}

/// The line terminator as text.
pub open spec fn spec_eol_text(e: Eol) -> Seq<char> {
    match e {
        Eol::Unix => seq!['\n'],
        Eol::Windows => seq!['\r', '\n'],
    }
}

/// The final text of one cell: its value rendered under the formatter, then
/// quoted as the mode asks of the value's kind.
pub open spec fn spec_cell_text(c: Cell, fmt: CellFormatter, mode: QuoteMode) -> Seq<char> {
    spec_quoted_text(spec_value_text(c.value, fmt), spec_is_textual(c.value), mode)
}

/// The texts of a row's cells, in order.
pub open spec fn spec_cell_texts(cells: Seq<Cell>, fmt: CellFormatter, mode: QuoteMode) -> Seq<
    Seq<char>,
> {
    cells.map_values(|c: Cell| spec_cell_text(c, fmt, mode))
}

/// One data row: the cell texts joined by the delimiter.
pub open spec fn spec_row_text(
    cells: Seq<Cell>,
    fmt: CellFormatter,
    mode: QuoteMode,
    sep: Seq<char>,
) -> Seq<char> {
    spec_join(spec_cell_texts(cells, fmt, mode), sep)
}

/// The texts of all data rows, in order.
pub open spec fn spec_row_texts(
    rows: Seq<Seq<Cell>>,
    fmt: CellFormatter,
    mode: QuoteMode,
    sep: Seq<char>,
) -> Seq<Seq<char>> {
    rows.map_values(|cells: Seq<Cell>| spec_row_text(cells, fmt, mode, sep))
}

/// The header texts of a cell sequence: one entry for each titled cell, its
/// title resolved against the table and quoted under the textual rule;
/// untitled cells contribute nothing.
pub open spec fn spec_header_texts(
    cells: Seq<Cell>,
    trans: Option<&toml::Table>,
    mode: QuoteMode,
) -> Seq<Seq<char>>
    decreases cells.len(),
{
    if cells.len() == 0 {
        Seq::empty()
    } else {
        let rest = spec_header_texts(cells.drop_last(), trans, mode);
        match cells.last().title {
            Some(t) => rest.push(spec_quoted_text(spec_resolved_title(t@, trans), true, mode)),
            None => rest,
        }
    }
}

/// The rows a slice of records exposes.
pub open spec fn spec_rows_of<S: CellsBuilder>(vs: Seq<S>) -> Seq<Seq<Cell>> {
    vs.map_values(|v: S| v.cells())
}

/// The whole output: the data rows joined by the line terminator, preceded —
/// when the header is enabled, a first record exists and at least one of its
/// cells is titled — by the header line and one terminator. No terminator
/// follows the last row.
pub open spec fn spec_serialize(
    cfg: Config,
    fmt: CellFormatter,
    rows: Seq<Seq<Cell>>,
    trans: Option<&toml::Table>,
) -> Seq<char> {
    let sep = spec_sep_text(cfg.separator);
    let eol = spec_eol_text(cfg.eol);
    let body = spec_join(spec_row_texts(rows, fmt, cfg.mode, sep), eol);
    let hdr = if cfg.has_header && rows.len() > 0 {
        spec_header_texts(rows[0], trans, cfg.mode)
    } else {
        Seq::empty()
    };
    if hdr.len() > 0 {
        spec_join(hdr, sep) + eol + body
    } else {
        body
    }
}

/// The header line depends only on the cells' titles, the translation table
/// and the quoting mode, never on the cells' values: two cell sequences with
/// the same titles yield the same header texts.
pub proof fn lemma_header_independent_of_data(
    a: Seq<Cell>,
    b: Seq<Cell>,
    trans: Option<&toml::Table>,
    mode: QuoteMode,
)
    requires
        spec_titles(a) == spec_titles(b),
    ensures
        spec_header_texts(a, trans, mode) == spec_header_texts(b, trans, mode),
    decreases a.len(),
{
    assert(spec_titles(a).len() == a.len());
    assert(spec_titles(b).len() == b.len());
    if a.len() > 0 {
        assert(spec_titles(a.drop_last()) =~= spec_titles(a).drop_last());
        assert(spec_titles(b.drop_last()) =~= spec_titles(b).drop_last());
        lemma_header_independent_of_data(a.drop_last(), b.drop_last(), trans, mode);
        let i = a.len() - 1;
        assert(spec_titles(a)[i] == match a[i].title {
            Some(t) => Some(t@),
            None => None,
        });
        assert(spec_titles(b)[i] == match b[i].title {
            Some(t) => Some(t@),
            None => None,
        });
    }
}

/// True when neither the cell's title nor a present text value holds a
/// double quote.
pub open spec fn spec_cell_quote_free(c: Cell) -> bool {
    &&& (c.title matches Some(t) ==> quote_free(t@))
    &&& (c.value matches crate::models::CellType::Text(o) ==> (o matches Some(s) ==> quote_free(
        s@,
    )))
}

/// True when every cell of every row is free of double quotes.
pub open spec fn spec_rows_quote_free(rows: Seq<Seq<Cell>>) -> bool {
    forall|i: int, j: int|
        0 <= i < rows.len() && 0 <= j < rows[i].len() ==> spec_cell_quote_free(#[trigger] rows[i][j])
}

/// Under the mode that never quotes, the output holds no double quote at
/// all, provided none stands in a title or a text value, none in the
/// formatter's own pieces, and none in a text leaf of the translation
/// table, when one is used.
pub proof fn lemma_no_quotes_without_quoting(
    cfg: Config,
    fmt: CellFormatter,
    rows: Seq<Seq<Cell>>,
    trans: Option<&toml::Table>,
)
    requires
        cfg.mode == QuoteMode::NoQuotes,
        spec_rows_quote_free(rows),
        spec_formatter_quote_free(fmt),
        trans matches Some(t) ==> spec_table_quote_free(t),
    ensures
        quote_free(spec_serialize(cfg, fmt, rows, trans)),
{
    let sep = spec_sep_text(cfg.separator);
    let eol = spec_eol_text(cfg.eol);
    assert(quote_free(sep)) by {
        match cfg.separator {
            FieldSeparator::Comma => assert(quote_free(seq![','])),
            FieldSeparator::SemiColumn => assert(quote_free(seq![';'])),
        }
    }
    assert(quote_free(eol)) by {
        match cfg.eol {
            Eol::Unix => assert(quote_free(seq!['\n'])),
            Eol::Windows => assert(quote_free(seq!['\r', '\n'])),
        }
    }
    let parts = spec_row_texts(rows, fmt, cfg.mode, sep);
    assert forall|i: int| 0 <= i < parts.len() implies quote_free(#[trigger] parts[i]) by {
        assert(parts[i] == spec_row_text(rows[i], fmt, cfg.mode, sep));
        lemma_row_text_quote_free(rows[i], fmt, cfg.mode, sep, rows, i);
    }
    lemma_join_quote_free(parts, eol);
    let body = spec_join(parts, eol);
    if cfg.has_header && rows.len() > 0 {
        let hdr = spec_header_texts(rows[0], trans, cfg.mode);
        lemma_header_texts_quote_free(rows[0], trans, cfg.mode, rows);
        if hdr.len() > 0 {
            lemma_join_quote_free(hdr, sep);
            lemma_quote_free_concat(spec_join(hdr, sep), eol);
            lemma_quote_free_concat(spec_join(hdr, sep) + eol, body);
        }
    }
}

/// One row's text is quote-free when its cells are and the mode never
/// quotes.
proof fn lemma_row_text_quote_free(
    cells: Seq<Cell>,
    fmt: CellFormatter,
    mode: QuoteMode,
    sep: Seq<char>,
    rows: Seq<Seq<Cell>>,
    at: int,
)
    requires
        mode == QuoteMode::NoQuotes,
        spec_formatter_quote_free(fmt),
        quote_free(sep),
        spec_rows_quote_free(rows),
        0 <= at < rows.len(),
        rows[at] == cells,
    ensures
        quote_free(spec_row_text(cells, fmt, mode, sep)),
{
    let texts = spec_cell_texts(cells, fmt, mode);
    assert forall|j: int| 0 <= j < texts.len() implies quote_free(#[trigger] texts[j]) by {
        assert(spec_cell_quote_free(rows[at][j]));
        assert(texts[j] == spec_cell_text(cells[j], fmt, mode));
        lemma_value_text_quote_free(cells[j].value, fmt);
        assert(spec_cell_text(cells[j], fmt, mode) == spec_value_text(cells[j].value, fmt));
    }
    lemma_join_quote_free(texts, sep);
}

/// The header texts are quote-free when the titles and the table's text
/// leaves are, and the mode never quotes.
proof fn lemma_header_texts_quote_free(
    cells: Seq<Cell>,
    trans: Option<&toml::Table>,
    mode: QuoteMode,
    rows: Seq<Seq<Cell>>,
)
    requires
        mode == QuoteMode::NoQuotes,
        spec_rows_quote_free(rows),
        trans matches Some(t) ==> spec_table_quote_free(t),
        rows.len() > 0,
        rows[0] == cells,
    ensures
        forall|i: int|
            0 <= i < spec_header_texts(cells, trans, mode).len() ==> quote_free(
                #[trigger] spec_header_texts(cells, trans, mode)[i],
            ),
{
    lemma_header_texts_quote_free_rec(cells, trans, mode, cells.len() as int, rows);
    assert(cells.take(cells.len() as int) =~= cells);
}

/// Induction step for the header texts of a prefix of the first row.
proof fn lemma_header_texts_quote_free_rec(
    cells: Seq<Cell>,
    trans: Option<&toml::Table>,
    mode: QuoteMode,
    upto: int,
    rows: Seq<Seq<Cell>>,
)
    requires
        mode == QuoteMode::NoQuotes,
        spec_rows_quote_free(rows),
        trans matches Some(t) ==> spec_table_quote_free(t),
        rows.len() > 0,
        rows[0] == cells,
        0 <= upto <= cells.len(),
    ensures
        forall|i: int|
            0 <= i < spec_header_texts(cells.take(upto), trans, mode).len() ==> quote_free(
                #[trigger] spec_header_texts(cells.take(upto), trans, mode)[i],
            ),
    decreases upto,
{
    if upto > 0 {
        lemma_header_texts_quote_free_rec(cells, trans, mode, upto - 1, rows);
        assert(cells.take(upto).drop_last() =~= cells.take(upto - 1));
        assert(cells.take(upto).last() == cells[upto - 1]);
        assert(spec_cell_quote_free(rows[0][upto - 1]));
        let prev = spec_header_texts(cells.take(upto - 1), trans, mode);
        let cur = spec_header_texts(cells.take(upto), trans, mode);
        match cells[upto - 1].title {
            Some(t) => {
                let resolved = spec_resolved_title(t@, trans);
                lemma_resolved_title_quote_free(t@, trans);
                assert(spec_quoted_text(resolved, true, mode) == resolved);
                assert(cur == prev.push(resolved));
                assert forall|i: int| 0 <= i < cur.len() implies quote_free(cur[i]) by {
                    if i < prev.len() {
                        assert(cur[i] == prev[i]);
                    } else {
                        assert(cur[i] == resolved);
                    }
                }
            },
            None => {
                assert(cur == prev);
            },
        }
    } else {
        assert(cells.take(0) =~= Seq::<Cell>::empty());
    }
}

/// The delimiter as a character vector.
fn sep_chars(s: FieldSeparator) -> (r: Vec<char>)
    ensures
        r@ == spec_sep_text(s),
{
    let mut r: Vec<char> = Vec::new();
    match s {
        FieldSeparator::Comma => r.push(','),
        FieldSeparator::SemiColumn => r.push(';'),
    }
    proof {
        assert(r@ =~= spec_sep_text(s));
    }
    r
}

/// The line terminator as a character vector.
fn eol_chars(e: Eol) -> (r: Vec<char>)
    ensures
        r@ == spec_eol_text(e),
{
    let mut r: Vec<char> = Vec::new();
    match e {
        Eol::Unix => r.push('\n'),
        Eol::Windows => {
            r.push('\r');
            r.push('\n');
        },
    }
    proof {
        assert(r@ =~= spec_eol_text(e));
    }
    r
}

/// Renders one cell: value text, then the quoting rule.
fn render_cell(c: &Cell, fmt: &CellFormatter, mode: QuoteMode) -> (r: Vec<char>)
    ensures
        r@ == spec_cell_text(*c, *fmt, mode),
{
    let text = render_value(&c.value, fmt);
    let textual = is_textual(&c.value);
    apply_quotes(text, textual, mode)
}

/// Renders one data row: the cells' texts joined by the delimiter.
fn render_row(cells: &Vec<Cell>, fmt: &CellFormatter, mode: QuoteMode, sep: &Vec<char>) -> (r:
    Vec<char>)
    ensures
        r@ == spec_row_text(cells@, *fmt, mode, sep@),
{
    let mut r: Vec<char> = Vec::new();
    let mut i: usize = 0;
    while i < cells.len()
        invariant
            i <= cells@.len(),
            r@ == spec_join(spec_cell_texts(cells@.take(i as int), *fmt, mode), sep@),
        decreases cells@.len() - i,
    {
        if i > 0 {
            append_chars(&mut r, sep);
        }
        let text = render_cell(&cells[i], fmt, mode);
        append_chars(&mut r, &text);
        proof {
            lemma_join_push(
                spec_cell_texts(cells@.take(i as int), *fmt, mode),
                sep@,
                spec_cell_text(cells@[i as int], *fmt, mode),
            );
            assert(spec_cell_texts(cells@.take(i + 1), *fmt, mode) =~= spec_cell_texts(
                cells@.take(i as int),
                *fmt,
                mode,
            ).push(spec_cell_text(cells@[i as int], *fmt, mode)));
        }
        i += 1;
    }
    proof {
        assert(cells@.take(cells@.len() as int) =~= cells@);
    }
    r
}

/// Renders the header line of a cell sequence, or nothing when no cell
/// contributes a title.
fn render_header_line(
    cells: &Vec<Cell>,
    translations: Option<&toml::Table>,
    mode: QuoteMode,
    sep: &Vec<char>,
) -> (r: Option<Vec<char>>)
    ensures
        (r is Some) == (spec_header_texts(cells@, translations, mode).len() > 0),
        r matches Some(h) ==> h@ == spec_join(
            spec_header_texts(cells@, translations, mode),
            sep@,
        ),
{
    let mut out: Vec<char> = Vec::new();
    let mut count: usize = 0;
    let mut i: usize = 0;
    while i < cells.len()
        invariant
            i <= cells@.len(),
            count == spec_header_texts(cells@.take(i as int), translations, mode).len(),
            count <= i,
            out@ == spec_join(spec_header_texts(cells@.take(i as int), translations, mode), sep@),
        decreases cells@.len() - i,
    {
        proof {
            assert(cells@.take(i + 1).drop_last() =~= cells@.take(i as int));
            assert(cells@.take(i + 1).last() == cells@[i as int]);
        }
        match &cells[i].title {
            Some(title) => {
                let resolved: String = match translations {
                    Some(table) => crate::i18n::resolve(title.as_str(), table),
                    None => title.clone(),
                };
                let rchars = chars_of(resolved.as_str());
                let quoted = apply_quotes(rchars, true, mode);
                if count > 0 {
                    append_chars(&mut out, sep);
                }
                append_chars(&mut out, &quoted);
                proof {
                    lemma_join_push(
                        spec_header_texts(cells@.take(i as int), translations, mode),
                        sep@,
                        spec_quoted_text(spec_resolved_title(title@, translations), true, mode),
                    );
                }
                count += 1;
            },
            None => {},
        }
        i += 1;
    }
    proof {
        assert(cells@.take(cells@.len() as int) =~= cells@);
    }
    if count > 0 {
        Some(out)
    } else {
        None
    }
}

/// What `str::to_lowercase` returns: a function of the characters alone.
pub uninterp spec fn lowercase_of(s: Seq<char>) -> Seq<char>;

/// Relies on `str::to_lowercase`: the lowercase form of `s`, a function of
/// its characters alone.
#[verifier::external_body]
fn lowercase(s: &str) -> (r: String)
    ensures
        r@ == lowercase_of(s@),
{
    s.to_lowercase()
}

/// True of the French preset: semicolon delimiter, Unix line endings, mixed
/// quoting, header on, French date layout, comma decimal separator.
pub open spec fn spec_is_fr_preset(c: Csv) -> bool {
    &&& c.config == (Config {
        eol: Eol::Unix,
        separator: FieldSeparator::SemiColumn,
        mode: QuoteMode::Mixed,
        has_header: true,
    })
    &&& c.formatter.date_pattern@ == spec_fr_pattern()
    &&& c.formatter.decimal_separator == ','
}

/// True of the ISO preset: comma delimiter, Unix line endings, mixed
/// quoting, header on, ISO date layout, dot decimal separator.
pub open spec fn spec_is_iso_preset(c: Csv) -> bool {
    &&& c.config == (Config {
        eol: Eol::Unix,
        separator: FieldSeparator::Comma,
        mode: QuoteMode::Mixed,
        has_header: true,
    })
    &&& c.formatter.date_pattern@ == spec_iso_pattern()
    &&& c.formatter.decimal_separator == '.'
}

impl Csv {
    /// The preset for a language tag: `fr` in any letter case gives the
    /// French preset, everything else the ISO preset.
    pub fn new_from_lang(lang: &str) -> (r: Csv)
        ensures
            lowercase_of(lang@) == "fr"@ ==> spec_is_fr_preset(r),
            lowercase_of(lang@) != "fr"@ ==> spec_is_iso_preset(r),
    {
        let lc = lowercase(lang);
        let fr: String = "fr".to_owned();
        if lc == fr {
            Csv::new_fr()
        } else {
            Csv::new_iso()
        }
    }

    /// The ISO preset.
    pub fn new_iso() -> (r: Csv)
        ensures
            spec_is_iso_preset(r),
    {
        Csv { config: Config::new_unix_comma(), formatter: CellFormatter::new_iso() }
    }

    /// The French preset.
    pub fn new_fr() -> (r: Csv)
        ensures
            spec_is_fr_preset(r),
    {
        Csv { config: Config::new_unix_semi_column(), formatter: CellFormatter::new_fr() }
    }

    /// The same serializer with another configuration.
    pub fn with_config(self, config: Config) -> (r: Csv)
        ensures
            r.config == config,
            r.formatter == self.formatter,
    {
        Csv { config, ..self }
    }

    /// The same serializer with another formatter.
    pub fn with_formatter(self, formatter: CellFormatter) -> (r: Csv)
        ensures
            r.config == self.config,
            r.formatter == formatter,
    {
        Csv { formatter, ..self }
    }

    /// Serializes the records, translating header titles through the table.
    pub fn serialize_i8n_toml<S>(&self, values: &[S], translations: toml::Table) -> (r: String)
        where S: CellsBuilder
        ensures
            r@ == spec_serialize(
                self.config,
                self.formatter,
                spec_rows_of(values@),
                Some(&translations),
            ),
    {
        self.serialize_opt(values, Some(&translations))
    }

    /// Serializes the records with their titles as they stand.
    pub fn serialize<S>(&self, values: &[S]) -> (r: String)
        where S: CellsBuilder
        ensures
            r@ == spec_serialize(self.config, self.formatter, spec_rows_of(values@), None),
    {
        self.serialize_opt(values, None)
    }

    /// Resolves one dotted title against a translation table, keeping the
    /// literal title when no text leaf is found.
    pub fn get_i18n(&self, title: &str, translations: &toml::Table) -> (r: String)
        ensures
            r@ == spec_resolve(title@, translations),
    {
        crate::i18n::resolve(title, translations)
    }

    fn serialize_opt<S>(&self, values: &[S], translations: Option<&toml::Table>) -> (r: String)
        where S: CellsBuilder
        ensures
            r@ == spec_serialize(
                self.config,
                self.formatter,
                spec_rows_of(values@),
                translations,
            ),
    {
        let ghost rows: Seq<Seq<Cell>> = spec_rows_of(values@);
        let sep = sep_chars(self.config.separator);
        let eol = eol_chars(self.config.eol);
        let mut body: Vec<char> = Vec::new();
        let mut header_line: Option<Vec<char>> = None;
        let n = values.len();
        let mut i: usize = 0;
        while i < n
            invariant
                i <= n == values@.len(),
                rows == spec_rows_of(values@),
                rows.len() == n,
                sep@ == spec_sep_text(self.config.separator),
                eol@ == spec_eol_text(self.config.eol),
                body@ == spec_join(
                    spec_row_texts(rows.take(i as int), self.formatter, self.config.mode, sep@),
                    eol@,
                ),
                i == 0 ==> header_line is None,
                i > 0 ==> (header_line is Some) == (self.config.has_header
                    && spec_header_texts(rows[0], translations, self.config.mode).len() > 0),
                i > 0 ==> (header_line matches Some(h) ==> h@ == spec_join(
                    spec_header_texts(rows[0], translations, self.config.mode),
                    sep@,
                )),
            decreases n - i,
        {
            let item = &values[i];
            let cells = item.get_cells();
            proof {
                assert(rows[i as int] == values@[i as int].cells());
                assert(cells@ == rows[i as int]);
            }
            if i == 0 && self.config.has_header {
                header_line = render_header_line(&cells, translations, self.config.mode, &sep);
            }
            if i > 0 {
                append_chars(&mut body, &eol);
            }
            let row = render_row(&cells, &self.formatter, self.config.mode, &sep);
            append_chars(&mut body, &row);
            proof {
                lemma_join_push(
                    spec_row_texts(rows.take(i as int), self.formatter, self.config.mode, sep@),
                    eol@,
                    spec_row_text(rows[i as int], self.formatter, self.config.mode, sep@),
                );
                assert(spec_row_texts(rows.take(i + 1), self.formatter, self.config.mode, sep@)
                    =~= spec_row_texts(
                    rows.take(i as int),
                    self.formatter,
                    self.config.mode,
                    sep@,
                ).push(spec_row_text(rows[i as int], self.formatter, self.config.mode, sep@)));
            }
            i += 1;
        }
        proof {
            assert(rows.take(n as int) =~= rows);
        }
        let mut out: Vec<char> = Vec::new();
        match header_line {
            Some(h) => {
                append_chars(&mut out, &h);
                append_chars(&mut out, &eol);
            },
            None => {},
        }
        append_chars(&mut out, &body);
        string_from_chars(&out)
    }
}

} // verus!
