//! Typesetting of comma-separated tables as LaTeX `tabular` environments.
//!
//! A cell that reads like a number in scientific notation, such as `1.23E-4`,
//! is typeset as a power of ten, `$1.23 \times 10^{-4}$`; every other cell is
//! passed through with the whitespace around it removed.
//!
//! - [`text`]: character classes, runs of a class, trimming.
//! - [`exponent`]: the canonical form of an exponent.
//! - [`cell`]: classification of one cell, and what it is typeset as.
//! - [`table`]: rows, the column-format specifier, and whole tables.
//! - [`input`]: tables from comma-separated text.
//! - [`outcome`]: outcomes of steps that may be left out and may fail.

pub mod cell;
pub mod exponent;
pub mod input;
pub mod outcome;
pub mod table;
pub mod text;
