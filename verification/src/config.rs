//! The immutable output configuration: line ending, field separator, quoting
//! mode and header toggle, built from presets with copy-and-override methods.

use vstd::prelude::*;

use crate::models::{Eol, FieldSeparator, QuoteMode};

verus! {

#[derive(Debug, Clone, Copy, PartialEq, Eq, Structural)]
pub struct Config {
    pub eol: Eol,
    pub separator: FieldSeparator,
    pub mode: QuoteMode,
    pub has_header: bool,
}

impl Config {
    /// Unix line endings, semicolon delimiter, mixed quoting, header on.
    pub fn new_unix_semi_column() -> (r: Config)
        ensures
            r == (Config {
                eol: Eol::Unix,
                separator: FieldSeparator::SemiColumn,
                mode: QuoteMode::Mixed,
                has_header: true,
            }),
    {
        Config {
            eol: Eol::Unix,
            separator: FieldSeparator::SemiColumn,
            mode: QuoteMode::Mixed,
            has_header: true,
        }
    }

    /// Unix line endings, comma delimiter, mixed quoting, header on.
    pub fn new_unix_comma() -> (r: Config)
        ensures
            r == (Config {
                eol: Eol::Unix,
                separator: FieldSeparator::Comma,
                mode: QuoteMode::Mixed,
                has_header: true,
            }),
    {
        Config {
            eol: Eol::Unix,
            separator: FieldSeparator::Comma,
            mode: QuoteMode::Mixed,
            has_header: true,
        }
    }

    pub fn with_eol(self, eol: Eol) -> (r: Config)
        ensures
            r == (Config { eol, ..self }),
    {
        Config { eol, ..self }
    }

    pub fn with_mode(self, mode: QuoteMode) -> (r: Config)
        ensures
            r == (Config { mode, ..self }),
    {
        Config { mode, ..self }
    }

    pub fn with_separator(self, separator: FieldSeparator) -> (r: Config)
        ensures
            r == (Config { separator, ..self }),
    {
        Config { separator, ..self }
    }

    pub fn with_header(self, has_header: bool) -> (r: Config)
        ensures
            r == (Config { has_header, ..self }),
    {
        Config { has_header, ..self }
    }
}

} // verus!
