use vstd::prelude::*;

verus! {

/// One reported problem: the line it was found on and what it is.
#[derive(Clone, Debug, PartialEq)]
pub struct Diagnostic {
    pub line: i32,
    pub message: String,
}

/// The mathematical value of a [`Diagnostic`].
pub struct DiagnosticView {
    pub line: int,
    pub message: Seq<char>,
}

impl View for Diagnostic {
    type V = DiagnosticView;

    open spec fn view(&self) -> DiagnosticView {
        DiagnosticView { line: self.line as int, message: self.message@ }
    }
}

pub open spec fn diagnostics_view(ds: Seq<Diagnostic>) -> Seq<DiagnosticView> {
    ds.map_values(|d: Diagnostic| d@)
}

/// State shared by the caller with each scan: whether anything went wrong,
/// and the diagnostics reported so far, oldest first, for the caller to
/// show.
pub struct RuntimeStatus {
    pub had_error: bool,
    pub reports: Vec<Diagnostic>,
}

impl RuntimeStatus {
    pub fn new() -> (s: RuntimeStatus)
        ensures
            !s.had_error,
            s.reports@.len() == 0,
    {
        RuntimeStatus { had_error: false, reports: Vec::new() }
    }
}

} // verus!
