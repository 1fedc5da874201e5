use vstd::prelude::*;
use crate::runtime_status::{Diagnostic, DiagnosticView, RuntimeStatus, diagnostics_view};

verus! {

/// Reports `message` as found on `line`: records the diagnostic for the
/// caller and marks the status as failed.
pub fn error(runtime_status: &mut RuntimeStatus, line: i32, message: &str)
    ensures
        final(runtime_status).had_error,
        diagnostics_view(final(runtime_status).reports@) == diagnostics_view(
            old(runtime_status).reports@,
        ).push(DiagnosticView { line: line as int, message: message@ }),
{
    let d = Diagnostic { line, message: String::from_str(message) };
    runtime_status.reports.push(d);
    runtime_status.had_error = true;
    proof {
        assert(diagnostics_view(final(runtime_status).reports@) =~= diagnostics_view(
            old(runtime_status).reports@,
        ).push(DiagnosticView { line: line as int, message: message@ }));
    }
}

} // verus!
