//! The one outside type the library carries without looking inside: the
//! path a file or folder of Reflect's is kept at. Reading and writing those
//! files is the caller's part; the library only says what to read and what
//! to write.

use vstd::prelude::*;

verus! {

/// `std::path::PathBuf`, carried as an opaque value.
#[verifier::external_type_specification]
#[verifier::external_body]
pub struct ExPathBuf(std::path::PathBuf);

} // verus!
