//! Terminal results of a backup: what a destination, or the run as a whole,
//! ended with.

use vstd::prelude::*;
use vstd::string::*;

verus! {

/// Why a backup, or one step of it, failed.
#[derive(Clone, Copy, Debug, PartialEq, Eq, Structural)]
pub enum ErrorKind {
    /// A destination or an exclusion was malformed.
    Config,
    /// The free space of a destination could not be determined.
    Probe,
    /// A destination has less free space than the volumes need.
    InsufficientSpace { required: u64, available: u64 },
    /// The target directory of this run is already there.
    AlreadyExists,
    /// An excluded volume names no volume that exists.
    UnknownExclusion,
    /// A transfer process could not be started.
    Spawn,
    /// A transfer process ended with a failure.
    Runtime,
    /// The user cancelled the run.
    Interrupted,
    /// The operating system refused a file or process operation.
    Io,
}

/// A failed backup step: its kind and the text shown to the user.
#[derive(Debug)]
pub struct BackupError {
    pub kind: ErrorKind,
    pub message: String,
}

/// Mathematical content of a [`BackupError`].
pub struct BackupErrorView {
    pub kind: ErrorKind,
    pub message: Seq<char>,
}

impl View for BackupError {
    type V = BackupErrorView;

    open spec fn view(&self) -> BackupErrorView {
        BackupErrorView { kind: self.kind, message: self.message@ }
    }
}

/// Text of the error that a value made by `BackupError::default()` carries.
pub open spec fn default_error_text() -> Seq<char> {
    "An error occurred while parsing the HTTP request"@
}

impl BackupError {
    /// A runtime error with the given text.
    pub fn new(message: &str) -> (err: BackupError)
        ensures
            err@ == (BackupErrorView { kind: ErrorKind::Runtime, message: message@ }),
    {
        BackupError { kind: ErrorKind::Runtime, message: String::from_str(message) }
    }

    /// An error of the given kind with the given text.
    pub fn with_kind(kind: ErrorKind, message: &str) -> (err: BackupError)
        ensures
            err@ == (BackupErrorView { kind, message: message@ }),
    {
        BackupError { kind, message: String::from_str(message) }
    }

    /// The text shown to the user.
    pub fn to_string(&self) -> (text: String)
        ensures
            text@ == self@.message,
    {
        self.message.clone()
    }
}

impl Clone for BackupError {
    fn clone(&self) -> (copy: BackupError)
        ensures
            copy@ == self@,
    {
        BackupError { kind: self.kind, message: self.message.clone() }
    }
}

impl Default for BackupError {
    fn default() -> (err: BackupError)
        ensures
            err@ == (BackupErrorView { kind: ErrorKind::Runtime, message: default_error_text() }),
    {
        BackupError::new("An error occurred while parsing the HTTP request")
    }
}

/// A finished backup and the text that reports it.
#[derive(Debug)]
pub struct BackupSuccess {
    message: String,
}

impl View for BackupSuccess {
    type V = Seq<char>;

    closed spec fn view(&self) -> Seq<char> {
        self.message@
    }
}

impl BackupSuccess {
    pub fn new(message: &str) -> (done: BackupSuccess)
        ensures
            done@ == message@,
    {
        BackupSuccess { message: String::from_str(message) }
    }

    /// The text that reports the backup.
    pub fn message(&self) -> (text: String)
        ensures
            text@ == self@,
    {
        self.message.clone()
    }
}

impl Clone for BackupSuccess {
    fn clone(&self) -> (copy: BackupSuccess)
        ensures
            copy@ == self@,
    {
        BackupSuccess { message: self.message.clone() }
    }
}

/// What one destination, or the run itself, ended with.
pub type Outcome = Result<BackupSuccess, BackupError>;

/// Mathematical content of an [`Outcome`].
pub enum OutcomeView {
    Success { message: Seq<char> },
    Error { kind: ErrorKind, message: Seq<char> },
}

/// The content of one outcome.
pub open spec fn outcome_view(outcome: Outcome) -> OutcomeView {
    match outcome {
        Ok(done) => OutcomeView::Success { message: done@ },
        Err(err) => OutcomeView::Error { kind: err@.kind, message: err@.message },
    }
}

/// The content of a report, entry by entry.
pub open spec fn report_view(report: Seq<Outcome>) -> Seq<OutcomeView> {
    report.map_values(|o: Outcome| outcome_view(o))
}

/// A copy of an outcome.
pub fn clone_outcome(outcome: &Outcome) -> (copy: Outcome)
    ensures
        outcome_view(copy) == outcome_view(*outcome),
{
    match outcome {
        Ok(done) => Ok(done.clone()),
        Err(err) => Err(err.clone()),
    }
}

} // verus!
