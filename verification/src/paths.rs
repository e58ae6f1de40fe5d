//! Paths as text, with `/` between their components.

use crate::text::opt_text;
use std::path::Path;
use vstd::prelude::*;

verus! {

/// What is left of a path below a base: `std::path::Path::strip_prefix`.
/// `None` where the base is no prefix of the path, component by component.
pub uninterp spec fn path_below(path: Seq<char>, base: Seq<char>) -> Option<Seq<char>>;

/// Calls `std::path::Path::strip_prefix`. How paths are cut into components
/// is not said further.
#[verifier::external_body]
pub(crate) fn strip_base(path: &str, base: &str) -> (r: Option<String>)
    ensures
        opt_text(r) == path_below(path@, base@),
{
    let rest = Path::new(path).strip_prefix(base).ok()?;
    Some(rest.to_string_lossy().into_owned())
}

} // verus!
