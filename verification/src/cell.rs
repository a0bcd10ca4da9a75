//! A cell: one column's optional title and typed value for one record.

use vstd::prelude::*;

use crate::models::CellType;

verus! {

#[derive(Debug, Clone)]
pub struct Cell {
    pub title: Option<String>,
    pub value: CellType,
}

impl Cell {
    /// An untitled cell: it contributes no text to the header line.
    pub fn new(value: CellType) -> (r: Cell)
        ensures
            r.title is None,
            r.value == value,
    {
        Cell { value, title: None }
    }

    /// A titled cell; the title may later be translated in the header.
    pub fn new_title(title: &str, value: CellType) -> (r: Cell)
        ensures
            r.title matches Some(t) && t@ == title@,
            r.value == value,
    {
        Cell { title: Some(title.to_owned()), value }
    }
}

/// The titles of a cell sequence, each as an optional character sequence.
/// The header line is a function of these alone.
pub open spec fn spec_titles(cells: Seq<Cell>) -> Seq<Option<Seq<char>>> {
    cells.map_values(
        |c: Cell|
            match c.title {
                Some(t) => Some(t@),
                None => None,
            },
    )
}

} // verus!
