//! Diagnostics produced by the rules from observations.
use vstd::prelude::*;

verus! {

/// A rule violation reported against a source location.
#[derive(Debug, Clone)]
pub struct AntiLlmDiagnostic {
    pub code: String,
    pub category: String,
    pub file_path: String,
    pub line: usize,
    pub column: usize,
    pub message: String,
    pub forbidden_implication: String,
    pub blocking: bool,
    pub required_correction: String,
    pub required_next_proof: String,
}

/// The mathematical content of an [`AntiLlmDiagnostic`].
pub struct DiagnosticView {
    pub code: Seq<char>,
    pub category: Seq<char>,
    pub file_path: Seq<char>,
    pub line: usize,
    pub column: usize,
    pub message: Seq<char>,
    pub forbidden_implication: Seq<char>,
    pub blocking: bool,
    pub required_correction: Seq<char>,
    pub required_next_proof: Seq<char>,
}

impl View for AntiLlmDiagnostic {
    type V = DiagnosticView;

    open spec fn view(&self) -> DiagnosticView {
        DiagnosticView {
            code: self.code@,
            category: self.category@,
            file_path: self.file_path@,
            line: self.line,
            column: self.column,
            message: self.message@,
            forbidden_implication: self.forbidden_implication@,
            blocking: self.blocking,
            required_correction: self.required_correction@,
            required_next_proof: self.required_next_proof@,
        }
    }
}

/// The views of a sequence of diagnostics.
pub open spec fn diag_views(v: Seq<AntiLlmDiagnostic>) -> Seq<DiagnosticView> {
    v.map_values(|d: AntiLlmDiagnostic| d@)
}

pub proof fn lemma_diag_views_push(v: Seq<AntiLlmDiagnostic>, d: AntiLlmDiagnostic)
    ensures
        diag_views(v.push(d)) == diag_views(v).push(d@),
{
    assert(diag_views(v.push(d)) =~= diag_views(v).push(d@));
}

/// A diagnostic view assembled from its parts.
/// Some diagnostic of `ds` has code `code` and blocking flag `blocking`.
pub open spec fn diag_with(ds: Seq<DiagnosticView>, code: Seq<char>, blocking: bool) -> bool {
    exists|k: int| 0 <= k < ds.len() && (#[trigger] ds[k]).code == code && ds[k].blocking == blocking
}

/// Some diagnostic of `ds` has code `code`.
pub open spec fn diag_coded(ds: Seq<DiagnosticView>, code: Seq<char>) -> bool {
    exists|k: int| 0 <= k < ds.len() && (#[trigger] ds[k]).code == code
}

pub open spec fn diag(
    code: Seq<char>,
    category: Seq<char>,
    o: crate::observations::ObservationView,
    message: Seq<char>,
    forbidden_implication: Seq<char>,
    blocking: bool,
    required_correction: Seq<char>,
    required_next_proof: Seq<char>,
) -> DiagnosticView {
    DiagnosticView {
        code,
        category,
        file_path: o.file_path,
        line: o.line,
        column: o.column,
        message,
        forbidden_implication,
        blocking,
        required_correction,
        required_next_proof,
    }
}

/// A diagnostic at the location of `o` with the given texts.
pub fn make_diag(
    code: &str,
    category: &str,
    o: &crate::observations::Observation,
    message: String,
    forbidden_implication: String,
    blocking: bool,
    required_correction: &str,
    required_next_proof: &str,
) -> (d: AntiLlmDiagnostic)
    ensures
        d@ == diag(
            code@,
            category@,
            o@,
            message@,
            forbidden_implication@,
            blocking,
            required_correction@,
            required_next_proof@,
        ),
{
    AntiLlmDiagnostic {
        code: code.to_owned(),
        category: category.to_owned(),
        file_path: o.file_path.clone(),
        line: o.line,
        column: o.column,
        message,
        forbidden_implication,
        blocking,
        required_correction: required_correction.to_owned(),
        required_next_proof: required_next_proof.to_owned(),
    }
}

} // verus!
