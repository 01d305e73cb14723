//! Translation-time diagnostics of the generation pass.
//!
//! Every failure aborts code generation for the offending declaration;
//! none of them is recoverable within the pass.

use vstd::prelude::*;

verus! {

/// Why the generation pass rejected a declaration.
#[derive(Debug)]
pub enum GenError {
    /// The annotation of the case at `case` violates the grammar; `pos` is
    /// the character position of the offending token within its text.
    MalformedAnnotation { case: usize, pos: usize },
    /// The parameter at `index` of a handler is not a simple typed binding.
    UnsupportedParameterPattern { index: usize },
    /// The derive-style transform was applied to something other than a
    /// tagged-case taxonomy.
    MissingEnumTarget,
}

} // verus!
