//! File paths, carried through unread.

use vstd::prelude::*;

verus! {

/// `std::path::PathBuf`, of which nothing is known here: a path that an
/// argument gave is handed on as it came.
#[verifier::external_type_specification]
#[verifier::external_body]
pub struct ExPathBuf(std::path::PathBuf);

} // verus!
