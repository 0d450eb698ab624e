//! The injected error handler: every recoverable error of a run flows
//! through it, so the core never decides how errors are surfaced.

use vstd::prelude::*;

use std::io::Write;

use crate::dataset;
use crate::detection::DetectionError;

verus! {

/// A recoverable error surfaced during a run.
#[derive(Debug)]
pub enum RunError {
    /// A dataset could not deliver a sample, or loading was cut short.
    Dataset(dataset::Error),
    /// A detector failed, for one sample or for its whole run.
    Detection(DetectionError),
    /// Plain text from the surrounding process.
    Text(String),
}

impl RunError {
    /// The human-readable description of this error.
    pub open spec fn spec_message(&self) -> Seq<char> {
        match self {
            RunError::Dataset(e) => e.spec_message(),
            RunError::Detection(e) => e.spec_message(),
            RunError::Text(t) => t@,
        }
    }

    /// Renders the description.
    pub fn message(&self) -> (r: String)
        ensures
            r@ == self.spec_message(),
    {
        match self {
            RunError::Dataset(e) => e.message(),
            RunError::Detection(e) => e.message(),
            RunError::Text(t) => t.clone(),
        }
    }
}

/// Receives every recoverable error of a run, one call per error, in the
/// caller's control flow. The history of received errors is part of the
/// contract, so callers can state exactly what they reported.
pub trait ErrorHandler {
    /// The errors received so far, oldest first.
    spec fn handled(&self) -> Seq<RunError>;

    /// Receives one error.
    fn handle(&mut self, error: RunError)
        ensures
            final(self).handled() == old(self).handled().push(error),
    ;
}

/// Relies on `writeln!` to standard error: prints one line of text.
#[verifier::external_body]
fn print_error_line(text: &String) {
    let _ = writeln!(std::io::stderr(), "{}", text);
}

/// A handler that prints every error to standard error.
pub struct ErrorPrinter {
    history: Ghost<Seq<RunError>>,
}

impl ErrorPrinter {
    /// A printer with an empty history.
    pub fn new() -> (r: ErrorPrinter)
        ensures
            r.handled() == Seq::<RunError>::empty(),
    {
        ErrorPrinter { history: Ghost(Seq::empty()) }
    }
}

impl ErrorHandler for ErrorPrinter {
    closed spec fn handled(&self) -> Seq<RunError> {
        self.history@
    }

    fn handle(&mut self, error: RunError) {
        let text = error.message();
        print_error_line(&text);
        proof {
            self.history@ = self.history@.push(error);
        }
    }
}

/// A handler that keeps every error, for callers that want to inspect them.
pub struct ErrorLog {
    errors: Vec<RunError>,
}

impl ErrorLog {
    /// An empty log.
    pub fn new() -> (r: ErrorLog)
        ensures
            r.handled() == Seq::<RunError>::empty(),
    {
        ErrorLog { errors: Vec::new() }
    }

    /// How many errors were received.
    pub fn len(&self) -> (r: usize)
        ensures
            r == self.handled().len(),
    {
        self.errors.len()
    }

    /// The received errors, oldest first.
    pub fn into_errors(self) -> (r: Vec<RunError>)
        ensures
            r@ == self.handled(),
    {
        self.errors
    }
}

impl ErrorHandler for ErrorLog {
    closed spec fn handled(&self) -> Seq<RunError> {
        self.errors@
    }

    fn handle(&mut self, error: RunError) {
        self.errors.push(error);
    }
}

} // verus!
