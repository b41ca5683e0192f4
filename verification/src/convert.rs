//! The conversion of a workbook, sheet by sheet.
//!
//! Reading the workbook and writing files is left to the caller. What is
//! decided here: which sheets are read, what happens with each sheet once it
//! has been read or found missing, and which files come out with what bytes.
//!
//! The caller makes a [`Conversion`], hands it the outcome of reading each
//! sheet in turn and does what the [`Action`] that comes back says, and at
//! the end asks for the file that may be left to write. The rules are stated
//! once, on the models of these types, by [`accepted`] and [`finished`].

use crate::encode::{csv_text, csv_write_all, csv_writer};
use crate::merge::merged;
use crate::rows::{normalized, trim_rows, trimmed_grid};
use crate::sheet::{SheetData, SheetModel};
use vstd::prelude::*;
use vstd::string::StringExecFns;

verus! {

/// What the user asked for.
#[derive(Debug, PartialEq, Eq)]
pub struct Options {
    /// The output path, if one was given.
    pub output: Option<String>,
    /// The one sheet to convert; all sheets where none is named.
    pub sheet: Option<String>,
    /// Name each output after its sheet even where an output path was given.
    pub use_sheet_name: bool,
    /// Merge all sheets into one output.
    pub all_in_one: bool,
    /// When merging, leave out the first row of every sheet but the first.
    /// Without `all_in_one` this changes nothing.
    pub first_line_only_once: bool,
}

/// Where an output goes.
#[derive(Debug, PartialEq, Eq)]
pub struct OutputTarget {
    /// The path of the file.
    pub path: String,
    /// Whether the path was derived from a sheet's name.
    pub from_sheet_name: bool,
}

/// A file to be written.
#[derive(Debug, PartialEq, Eq)]
pub struct OutputFile {
    pub target: OutputTarget,
    pub bytes: Vec<u8>,
}

/// What the caller is to do after a sheet has been handed over.
#[derive(Debug, PartialEq, Eq)]
pub enum Action {
    /// The sheet was not found: warn, and write nothing for it.
    Warn { sheet: String },
    /// The sheet was kept for the merged output: nothing to do yet.
    Keep,
    /// Write this file.
    Write(OutputFile),
}

/// The state of a conversion: the options, and the sheets kept so far for the
/// merged output, in the order in which they were handed over.
#[derive(Debug, PartialEq, Eq)]
pub struct Conversion {
    pub options: Options,
    pub collected: Vec<SheetData>,
}

/// The mathematical model of `Options`.
pub struct OptionsModel {
    pub output: Option<Seq<char>>,
    pub sheet: Option<Seq<char>>,
    pub use_sheet_name: bool,
    pub all_in_one: bool,
    pub first_line_only_once: bool,
}

/// The mathematical model of an `OutputTarget`.
pub struct TargetModel {
    pub path: Seq<char>,
    pub from_sheet_name: bool,
}

/// The mathematical model of an `OutputFile`.
pub struct FileModel {
    pub target: TargetModel,
    pub bytes: Seq<u8>,
}

/// The mathematical model of an `Action`.
pub enum ActionModel {
    Warn { sheet: Seq<char> },
    Keep,
    Write(FileModel),
}

/// The mathematical model of a `Conversion`.
pub struct ConversionModel {
    pub options: OptionsModel,
    pub collected: Seq<SheetModel>,
}

impl DeepView for Options {
    type V = OptionsModel;

    open spec fn deep_view(&self) -> OptionsModel {
        OptionsModel {
            output: self.output.deep_view(),
            sheet: self.sheet.deep_view(),
            use_sheet_name: self.use_sheet_name,
            all_in_one: self.all_in_one,
            first_line_only_once: self.first_line_only_once,
        }
    }
}

impl DeepView for OutputTarget {
    type V = TargetModel;

    open spec fn deep_view(&self) -> TargetModel {
        TargetModel { path: self.path@, from_sheet_name: self.from_sheet_name }
    }
}

impl DeepView for OutputFile {
    type V = FileModel;

    open spec fn deep_view(&self) -> FileModel {
        FileModel { target: self.target.deep_view(), bytes: self.bytes@ }
    }
}

impl DeepView for Action {
    type V = ActionModel;

    open spec fn deep_view(&self) -> ActionModel {
        match self {
            Action::Warn { sheet } => ActionModel::Warn { sheet: sheet@ },
            Action::Keep => ActionModel::Keep,
            Action::Write(file) => ActionModel::Write(file.deep_view()),
        }
    }
}

impl DeepView for Conversion {
    type V = ConversionModel;

    open spec fn deep_view(&self) -> ConversionModel {
        ConversionModel {
            options: self.options.deep_view(),
            collected: self.collected.deep_view(),
        }
    }
}

/// The names of the sheets to read: the one that was asked for, or else all
/// sheets of the workbook.
pub open spec fn selected_sheets(
    sheet: Option<Seq<char>>,
    workbook_sheets: Seq<Seq<char>>,
) -> Seq<Seq<char>> {
    match sheet {
        Some(name) => seq![name],
        None => workbook_sheets,
    }
}

/// Where the output of one sheet goes: to the output path where one was
/// given and the sheet's name is not asked for, else to the sheet's name
/// followed by `.csv`. An output path that is given is the path for every
/// sheet alike, so that of several sheets the one written last stays.
pub open spec fn sheet_target_of(
    sheet_name: Seq<char>,
    output: Option<Seq<char>>,
    use_sheet_name: bool,
) -> TargetModel {
    if use_sheet_name || output is None {
        TargetModel { path: sheet_name + ".csv"@, from_sheet_name: true }
    } else {
        TargetModel { path: output->0, from_sheet_name: false }
    }
}

/// Where the merged output goes: to the output path where one was given,
/// else to `all.csv`.
pub open spec fn merged_target_of(output: Option<Seq<char>>) -> TargetModel {
    TargetModel {
        path: match output {
            Some(path) => path,
            None => "all.csv"@,
        },
        from_sheet_name: false,
    }
}

/// What becomes of a conversion when the outcome of reading the sheet `name`
/// is handed to it, and what is to be done then. `cells` is `None` where the
/// workbook has no such sheet.
///
/// A missing sheet gives a warning and no file. When merging, a sheet that
/// was read is kept, its cells trimmed. Otherwise its file is due at once:
/// its rows in normal form, cells trimmed, as comma-separated text.
pub open spec fn accepted(
    state: ConversionModel,
    name: Seq<char>,
    cells: Option<Seq<Seq<Seq<char>>>>,
) -> (ConversionModel, ActionModel) {
    match cells {
        None => (state, ActionModel::Warn { sheet: name }),
        Some(raw) => if state.options.all_in_one {
            (
                ConversionModel {
                    options: state.options,
                    collected: state.collected.push(
                        SheetModel { name: name, rows: trimmed_grid(raw) },
                    ),
                },
                ActionModel::Keep,
            )
        } else {
            (
                state,
                ActionModel::Write(
                    FileModel {
                        target: sheet_target_of(
                            name,
                            state.options.output,
                            state.options.use_sheet_name,
                        ),
                        bytes: csv_text(normalized(raw, true)),
                    },
                ),
            )
        },
    }
}

/// The file that is left to write when a conversion ends: when merging, the
/// one file of all sheets kept, merged in their order and brought into
/// normal form as a whole; otherwise none.
pub open spec fn finished(state: ConversionModel) -> Option<FileModel> {
    if state.options.all_in_one {
        Some(
            FileModel {
                target: merged_target_of(state.options.output),
                bytes: csv_text(
                    normalized(merged(state.collected, state.options.first_line_only_once), false),
                ),
            },
        )
    } else {
        None
    }
}

/// The names of the sheets to read.
pub fn sheets_to_read(sheet: &Option<String>, workbook_sheets: &Vec<String>) -> (names: Vec<String>)
    ensures
        names.deep_view() == selected_sheets(sheet.deep_view(), workbook_sheets.deep_view()),
{
    let mut names: Vec<String> = Vec::new();
    match sheet {
        Some(name) => {
            names.push(name.clone());
        },
        None => {
            let mut i: usize = 0;
            while i < workbook_sheets.len()
                invariant
                    i <= workbook_sheets.len(),
                    names.len() == i,
                    forall|k: int| 0 <= k < i ==> (#[trigger] names[k])@ == workbook_sheets[k]@,
                decreases workbook_sheets.len() - i,
            {
                names.push(workbook_sheets[i].clone());
                i = i + 1;
            }
        },
    }
    names
}

/// Where the output of one sheet goes.
pub fn sheet_target(sheet_name: &str, output: &Option<String>, use_sheet_name: bool) -> (target:
    OutputTarget)
    ensures
        target.deep_view() == sheet_target_of(sheet_name@, output.deep_view(), use_sheet_name),
{
    match output {
        Some(path) if !use_sheet_name => OutputTarget {
            path: path.clone(),
            from_sheet_name: false,
        },
        _ => OutputTarget {
            path: String::from_str(sheet_name).concat(".csv"),
            from_sheet_name: true,
        },
    }
}

/// Where the merged output goes.
pub fn merged_target(output: &Option<String>) -> (target: OutputTarget)
    ensures
        target.deep_view() == merged_target_of(output.deep_view()),
{
    match output {
        Some(path) => OutputTarget { path: path.clone(), from_sheet_name: false },
        None => OutputTarget { path: String::from_str("all.csv"), from_sheet_name: false },
    }
}

impl Conversion {
    /// A conversion that has seen no sheet yet.
    pub fn new(options: Options) -> (conversion: Conversion)
        ensures
            conversion.deep_view() == (ConversionModel {
                options: options.deep_view(),
                collected: Seq::empty(),
            }),
    {
        let conversion = Conversion { options, collected: Vec::new() };
        assert(conversion.collected.deep_view() =~= Seq::<SheetModel>::empty());
        conversion
    }

    /// Takes the outcome of reading the sheet `name`: its cells as text, or
    /// `None` where the workbook has no such sheet. Says what is to be done.
    pub fn accept_sheet(&mut self, name: String, cells: Option<Vec<Vec<String>>>) -> (action:
        Action)
        ensures
            (final(self).deep_view(), action.deep_view()) == accepted(
                old(self).deep_view(),
                name@,
                cells.deep_view(),
            ),
            action matches Action::Write(file) ==> (normalized(cells->0.deep_view(), true).len()
                == 0 ==> file.bytes@.len() == 0),
    {
        match cells {
            None => Action::Warn { sheet: name },
            Some(raw) => {
                if self.options.all_in_one {
                    let ghost before = self.collected.deep_view();
                    let sheet = SheetData::new(name, trim_rows(&raw));
                    self.collected.push(sheet);
                    assert(self.collected.deep_view() =~= before.push(sheet.deep_view()));
                    Action::Keep
                } else {
                    let target = sheet_target(
                        name.as_str(),
                        &self.options.output,
                        self.options.use_sheet_name,
                    );
                    Action::Write(OutputFile { target, bytes: csv_writer(&raw) })
                }
            },
        }
    }

    /// Ends the conversion and hands out the file that is left to write, if
    /// there is one.
    pub fn finish(self) -> (last: Option<OutputFile>)
        ensures
            last.deep_view() == finished(self.deep_view()),
            last matches Some(file) ==> (merged(
                self.collected.deep_view(),
                self.options.first_line_only_once,
            ).len() == 0 ==> file.bytes@.len() == 0),
    {
        if self.options.all_in_one {
            let target = merged_target(&self.options.output);
            let bytes = csv_write_all(&self.collected, self.options.first_line_only_once);
            Some(OutputFile { target, bytes })
        } else {
            None
        }
    }
}

} // verus!
