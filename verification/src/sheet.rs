//! A sheet that has been read: its name and its rows.

use vstd::prelude::*;

verus! {

/// The rows read from one sheet of a workbook, under the sheet's name.
#[derive(Debug, PartialEq, Eq)]
pub struct SheetData {
    pub name: String,
    pub rows: Vec<Vec<String>>,
}

/// The mathematical model of a `SheetData`.
pub struct SheetModel {
    pub name: Seq<char>,
    pub rows: Seq<Seq<Seq<char>>>,
}

impl DeepView for SheetData {
    type V = SheetModel;

    open spec fn deep_view(&self) -> SheetModel {
        SheetModel { name: self.name@, rows: self.rows.deep_view() }
    }
}

impl SheetData {
    /// A sheet with the given name and rows.
    pub fn new(name: String, rows: Vec<Vec<String>>) -> (sheet: SheetData)
        ensures
            sheet.deep_view() == (SheetModel { name: name@, rows: rows.deep_view() }),
    {
        SheetData { name, rows }
    }
}

} // verus!
