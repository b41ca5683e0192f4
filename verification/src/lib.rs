//! Conversion of the sheets of a workbook into comma-separated text.
//!
//! The library holds the rules of the conversion and leaves reading workbooks
//! and writing files to its caller, who hands over the cells of each sheet as
//! text and gets back the files to write, as bytes.
//!
//! - [`text`]: white space, trimming, blank cells.
//! - [`rows`]: blank rows, the widest row, padding, the normal form of rows.
//! - [`sheet`]: a sheet that has been read.
//! - [`merge`]: the rows of several sheets as one sequence of rows.
//! - [`encode`]: rows as comma-separated text, written by the `csv` crate.
//! - [`convert`]: the conversion of a workbook, sheet by sheet.
//!
//! Everything is verified but the `csv` crate's writer, which is reached
//! through three private functions of [`encode`] whose contracts say what is
//! relied on.

pub mod convert;
pub mod encode;
pub mod merge;
pub mod rows;
pub mod sheet;
pub mod text;
