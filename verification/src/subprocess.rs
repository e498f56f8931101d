//! Data carried across the subprocess boundary. Running a command is the run
//! driver's job; the library only models what a finished command reported.

use vstd::prelude::*;

verus! {

/// Whether a command run echoes the command line and its output.
#[derive(Debug, Clone, Copy, PartialEq, Eq, Structural)]
pub enum Verbose {
    Yes,
    No,
}

/// What a finished command printed.
#[derive(Debug)]
pub struct Output {
    pub stdout: String,
    pub stderr: String,
}

#[verifier::ext_equal]
pub struct OutputView {
    pub stdout: Seq<char>,
    pub stderr: Seq<char>,
}

impl View for Output {
    type V = OutputView;

    open spec fn view(&self) -> OutputView {
        OutputView { stdout: self.stdout@, stderr: self.stderr@ }
    }
}

} // verus!
