//! Per-repository scanner configuration.
use vstd::prelude::*;
use crate::text::{chars_of, contains, contains_chars};

verus! {

/// Repository configuration consulted by the rules.
///
/// `suppression_paths` lists path fragments under which a rule's findings may be
/// suppressed (for example vendored or generated trees).
#[derive(Debug, Clone)]
pub struct AntiLlmConfig {
    pub suppression_paths: Vec<String>,
}

impl AntiLlmConfig {
    /// Whether findings in `path` may be suppressed: some configured fragment occurs in it.
    pub open spec fn allows_suppression(self, path: Seq<char>) -> bool {
        exists|i: int| 0 <= i < self.suppression_paths@.len() && contains(path, self.suppression_paths@[i]@)
    }

    pub fn is_suppression_allowed(&self, path: &str) -> (b: bool)
        ensures
            b == self.allows_suppression(path@),
    {
        let p = chars_of(path);
        let mut i: usize = 0;
        while i < self.suppression_paths.len()
            invariant
                i <= self.suppression_paths@.len(),
                p@ == path@,
                forall|j: int| 0 <= j < i ==> !contains(path@, self.suppression_paths@[j]@),
            decreases self.suppression_paths@.len() - i,
        {
            let frag = chars_of(self.suppression_paths[i].as_str());
            if contains_chars(p.as_slice(), frag.as_slice()) {
                return true;
            }
            i = i + 1;
        }
        false
    }
}

impl Default for AntiLlmConfig {
    fn default() -> (c: Self)
        ensures
            c.suppression_paths@.len() == 0,
    {
        AntiLlmConfig { suppression_paths: Vec::new() }
    }
}

} // verus!
