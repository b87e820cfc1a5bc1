//! What became of reading a file, and what is to be done to one.

use vstd::prelude::*;
use vstd::string::*;

verus! {

/// The outcome of reading a file as text.
#[derive(Clone, Debug, PartialEq, Eq)]
pub enum FileRead {
    /// The file's text.
    Text(String),
    /// There is no such file.
    NotFound,
    /// The file could not be read, with the reason.
    Failed(String),
}

/// One step to be taken on disk.
#[derive(Clone, Debug, PartialEq, Eq)]
pub enum FileStep {
    /// Copy a file.
    Copy { from: String, to: String },
    /// Write a file in one piece: to a temporary file first, then renamed.
    Write { path: String, body: String },
    /// Delete a file, if it is there.
    Remove { path: String },
}

/// What a [`FileStep`] does.
pub ghost enum StepView {
    Copy { from: Seq<char>, to: Seq<char> },
    Write { path: Seq<char>, body: Seq<char> },
    Remove { path: Seq<char> },
}

impl View for FileStep {
    type V = StepView;

    open spec fn view(&self) -> StepView {
        match *self {
            FileStep::Copy { from, to } => StepView::Copy { from: from@, to: to@ },
            FileStep::Write { path, body } => StepView::Write { path: path@, body: body@ },
            FileStep::Remove { path } => StepView::Remove { path: path@ },
        }
    }
}

} // verus!
