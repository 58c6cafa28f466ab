//! Raw observations emitted by the scanners and consumed by the rules.
use vstd::prelude::*;

verus! {

/// One raw finding of a scanner: where it is, what matched, and the line it came from.
#[derive(Debug, Clone)]
pub struct Observation {
    pub file_path: String,
    pub start_byte: usize,
    pub end_byte: usize,
    pub line: usize,
    pub column: usize,
    pub kind: String,
    pub construct: String,
    pub context: String,
    pub message: String,
}

/// The mathematical content of an [`Observation`].
pub struct ObservationView {
    pub file_path: Seq<char>,
    pub start_byte: usize,
    pub end_byte: usize,
    pub line: usize,
    pub column: usize,
    pub kind: Seq<char>,
    pub construct: Seq<char>,
    pub context: Seq<char>,
    pub message: Seq<char>,
}

impl View for Observation {
    type V = ObservationView;

    open spec fn view(&self) -> ObservationView {
        ObservationView {
            file_path: self.file_path@,
            start_byte: self.start_byte,
            end_byte: self.end_byte,
            line: self.line,
            column: self.column,
            kind: self.kind@,
            construct: self.construct@,
            context: self.context@,
            message: self.message@,
        }
    }
}

/// The views of a sequence of observations.
pub open spec fn obs_views(v: Seq<Observation>) -> Seq<ObservationView> {
    v.map_values(|o: Observation| o@)
}

pub proof fn lemma_obs_views_push(v: Seq<Observation>, o: Observation)
    ensures
        obs_views(v.push(o)) == obs_views(v).push(o@),
{
    assert(obs_views(v.push(o)) =~= obs_views(v).push(o@));
}

pub proof fn lemma_obs_views_append(a: Seq<Observation>, b: Seq<Observation>)
    ensures
        obs_views(a + b) == obs_views(a) + obs_views(b),
{
    assert(obs_views(a + b) =~= obs_views(a) + obs_views(b));
}

} // verus!
