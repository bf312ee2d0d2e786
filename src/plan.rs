use vstd::prelude::*;
use crate::command::{CommandView, Invocation};

verus! {

/// One step of a build, as plain values.
pub enum StepView {
    EnsureDir(Seq<char>),
    Copy { from: Seq<char>, to: Seq<char> },
    Exec(CommandView),
    Rename { from: Seq<char>, to: Seq<char> },
    MakeExecutable(Seq<char>),
}

/// One step of a build, carried out by the caller in order; the first step that
/// fails ends the build.
pub enum Step {
    /// Create a directory and its parents where they are missing.
    EnsureDir(String),
    /// Copy a file.
    Copy { from: String, to: String },
    /// Run a compiler; a failing exit status fails the step.
    Exec(Invocation),
    /// Move a file.
    Rename { from: String, to: String },
    /// Make a file executable.
    MakeExecutable(String),
}

impl View for Step {
    type V = StepView;

    open spec fn view(&self) -> StepView {
        match self {
            Step::EnsureDir(p) => StepView::EnsureDir(p@),
            Step::Copy { from, to } => StepView::Copy { from: from@, to: to@ },
            Step::Exec(c) => StepView::Exec(c@),
            Step::Rename { from, to } => StepView::Rename { from: from@, to: to@ },
            Step::MakeExecutable(p) => StepView::MakeExecutable(p@),
        }
    }
}

/// The views of a list of steps.
pub open spec fn steps_view(v: Seq<Step>) -> Seq<StepView> {
    v.map_values(|s: Step| s@)
}

} // verus!
