//! What the engines hand back to the host: fire-and-forget action signals and
//! abstract display rows.  Performing an action and painting a row are the
//! host's business.

use vstd::prelude::*;

verus! {

/// A side-effecting request to the host.
pub enum Action {
    /// Switch focus to a pane of a tab of a running session.
    SwitchFocus { session: String, tab_position: usize, pane_id: u32 },
    /// Terminate a running session.
    Kill { session: String },
    /// Switch to the session of that name rooted at the working directory,
    /// creating it when absent.
    SwitchOrCreate { name: String, working_directory: String },
    /// Run the external discovery command.
    RunCommand { argv: Vec<String> },
}

/// One row of the rendered list: a label, the character positions to
/// highlight, the indent depth, and whether the row is the selected one.
pub struct DisplayRow {
    pub text: String,
    pub highlights: Vec<usize>,
    pub indent: usize,
    pub selected: bool,
}

/// The mathematical content of a display row.
pub ghost struct RowModel {
    pub text: Seq<char>,
    pub highlights: Seq<usize>,
    pub indent: int,
    pub selected: bool,
}

impl View for DisplayRow {
    type V = RowModel;

    open spec fn view(&self) -> RowModel {
        RowModel {
            text: self.text@,
            highlights: self.highlights@,
            indent: self.indent as int,
            selected: self.selected,
        }
    }
}

} // verus!
