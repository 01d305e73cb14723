//! Build-time generation of uniform HTTP response handling.
//!
//! An error taxonomy is a closed set of named cases. Each case may carry an
//! annotation, a small `key = expression` list, that decides which HTTP
//! status the case maps to and whether its description is shown to callers.
//! From those declarations this crate resolves one response rule per case,
//! emits the source text of a `to_response` capability implementation, and
//! rewrites handler declarations so every outcome is wrapped in a uniform
//! JSON envelope: `{"data": ...}` on success, `{"error": ...}` on failure.

pub mod annot;
pub mod config;
pub mod diag;
pub mod envelope;
pub mod gen;
pub mod jsontext;
pub mod respond;
pub mod rules;

use vstd::prelude::*;

verus! {

/// The fixed text shown in place of a hidden case's real description.
pub open spec fn generic_message() -> Seq<char> {
    "An unknown error occurred."@
}

/// Returns the fixed replacement text for hidden error cases.
pub fn generic_message_text() -> (r: String)
    ensures
        r@ == generic_message(),
{
    String::from_str("An unknown error occurred.")
}

} // verus!
