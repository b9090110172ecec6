//! The diagnostics sink: records `(file, line, message)` tuples and a sticky
//! error flag. It never aborts its caller; both the scanner and the parser
//! treat reporting as fire-and-forget.

use vstd::prelude::*;

verus! {

/// One recorded diagnostic: a non-fatal error carrying the source file it was
/// found in, the 1-based line it was found on, and a human-readable message.
pub struct Diagnostic {
    pub file: String,
    pub line: usize,
    pub message: String,
}

/// The mathematical content of a [`Diagnostic`].
pub ghost struct DiagModel {
    pub file: Seq<char>,
    pub line: nat,
    pub message: Seq<char>,
}

impl View for Diagnostic {
    type V = DiagModel;

    open spec fn view(&self) -> DiagModel {
        DiagModel { file: self.file@, line: self.line as nat, message: self.message@ }
    }
}

impl DeepView for Diagnostic {
    type V = DiagModel;

    open spec fn deep_view(&self) -> DiagModel {
        self.view()
    }
}

/// Accumulates diagnostics and exposes a sticky error flag. Reporting never
/// fails and never halts the caller; repeated reports simply accumulate.
pub struct CodeReporter {
    pub has_error: bool,
    pub diagnostics: Vec<Diagnostic>,
}

impl CodeReporter {
    /// A fresh sink: no diagnostics, error flag clear.
    pub fn new() -> (r: Self)
        ensures
            !r.has_error,
            r.diagnostics@ =~= Seq::<Diagnostic>::empty(),
    {
        CodeReporter { has_error: false, diagnostics: Vec::new() }
    }

    /// Records the diagnostic and sets the sticky error flag.
    pub fn report_error(&mut self, file: &String, line: usize, message: &String)
        ensures
            final(self).has_error,
            final(self).diagnostics.deep_view() =~= old(self).diagnostics.deep_view().push(
                DiagModel { file: file@, line: line as nat, message: message@ },
            ),
    {
        self.has_error = true;
        self.diagnostics.push(
            Diagnostic { file: file.clone(), line, message: message.clone() },
        );
    }
}

} // verus!
