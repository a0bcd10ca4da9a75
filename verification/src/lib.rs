//! A small library that turns collections of typed records into delimited
//! text (CSV-like) output. The delimiter, line ending, quoting policy and
//! locale-aware rendering of dates and decimal numbers are configurable, and
//! header titles can be translated through a TOML table.

pub mod cell;
pub mod config;
pub mod csv;
pub mod formatter;
pub mod i18n;
pub mod models;
pub mod text;
