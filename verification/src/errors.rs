//! The failures the library reports and their textual descriptions.

use vstd::prelude::*;
use crate::subprocess::Output;
use crate::subprocess::OutputView;

verus! {

/// The failures that reach a caller of the library.
#[derive(Debug)]
pub enum Error {
    /// Another instance already holds the singleton marker file.
    PidFileExists,
    /// An HTTP request failed; carries the URL.
    Http(String),
    /// A subprocess exited unsuccessfully; carries what it printed.
    ProcessFailed(Output),
    /// Any other failure, described in words.
    Msg(String),
}

#[verifier::ext_equal]
pub enum ErrorView {
    PidFileExists,
    Http(Seq<char>),
    ProcessFailed(OutputView),
    Msg(Seq<char>),
}

impl View for Error {
    type V = ErrorView;

    open spec fn view(&self) -> ErrorView {
        match self {
            Error::PidFileExists => ErrorView::PidFileExists,
            Error::Http(url) => ErrorView::Http(url@),
            Error::ProcessFailed(output) => ErrorView::ProcessFailed(output@),
            Error::Msg(m) => ErrorView::Msg(m@),
        }
    }
}

/// The description of a failure, as it appears in logs and in error-report
/// comments.
pub open spec fn spec_describe(e: ErrorView) -> Seq<char> {
    match e {
        ErrorView::PidFileExists => "Another bunnybot is already running."@,
        ErrorView::Http(url) => "HTTP request for "@ + url + " failed"@,
        ErrorView::ProcessFailed(o) => "Output:\nstdout:\n"@ + o.stdout + "\nstderr:\n"@ + o.stderr
            + "\n"@,
        ErrorView::Msg(m) => m,
    }
}

impl Error {
    pub fn describe(&self) -> (r: String)
        ensures
            r@ == spec_describe(self@),
    {
        match self {
            Error::PidFileExists => {
                let r = String::from_str("Another bunnybot is already running.");
                r
            },
            Error::Http(url) => {
                let mut r = String::from_str("HTTP request for ");
                r.append(url.as_str());
                r.append(" failed");
                proof {
                    assert(r@ =~= spec_describe(self@));
                }
                r
            },
            Error::ProcessFailed(output) => {
                let mut r = String::from_str("Output:\nstdout:\n");
                r.append(output.stdout.as_str());
                r.append("\nstderr:\n");
                r.append(output.stderr.as_str());
                r.append("\n");
                proof {
                    assert(r@ =~= spec_describe(self@));
                }
                r
            },
            Error::Msg(m) => {
                let r = m.clone();
                r
            },
        }
    }
}

} // verus!
