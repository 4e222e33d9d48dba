//! What the pipeline reports of the sources and scans that it had to give up.

use vstd::prelude::*;

verus! {

/// The kinds of failure that are reported and survived.
#[derive(Clone, Copy, Debug, PartialEq, Eq, Structural)]
pub enum DiagnosticKind {
    /// The rule directory has no canonical path: it does not exist or cannot be reached.
    PathUnresolved,
    /// The canonical path of the rule directory is no directory.
    NotADirectory,
    /// The rule directory cannot be listed.
    DirectoryUnreadable,
    /// An entry of the rule directory cannot be read as UTF-8 text.
    EntryUnreadable,
    /// A rule source was refused by the compiler.
    CompileFailed,
    /// The engine failed during the scan.
    ScanFailed,
}

/// One report: what failed, and the path, origin or reason that it is about.
#[derive(Debug)]
pub struct Diagnostic {
    pub kind: DiagnosticKind,
    pub subject: String,
}

pub struct DiagnosticView {
    pub kind: DiagnosticKind,
    pub subject: Seq<char>,
}

impl View for Diagnostic {
    type V = DiagnosticView;

    open spec fn view(&self) -> DiagnosticView {
        DiagnosticView { kind: self.kind, subject: self.subject@ }
    }
}

impl Diagnostic {
    /// A report of `kind` about `subject`.
    pub fn new(kind: DiagnosticKind, subject: &str) -> (diagnostic: Diagnostic)
        ensures
            diagnostic@ == (DiagnosticView { kind, subject: subject@ }),
    {
        Diagnostic { kind, subject: subject.to_owned() }
    }

    /// Whether the report is of an error, as a refused rule source and a failed scan
    /// are, or a notice, as the others are.
    pub fn is_error(&self) -> (error: bool)
        ensures
            error == (self.kind == DiagnosticKind::CompileFailed || self.kind
                == DiagnosticKind::ScanFailed),
    {
        match self.kind {
            DiagnosticKind::CompileFailed => true,
            DiagnosticKind::ScanFailed => true,
            _ => false,
        }
    }
}

} // verus!
