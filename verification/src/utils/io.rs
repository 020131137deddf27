//! The standard library's I/O error, as a value that is only handed on.
use vstd::prelude::*;

verus! {

/// An I/O error; nothing is known of what it holds.
#[verifier::external_type_specification]
#[verifier::external_body]
pub struct ExIoError(std::io::Error);

} // verus!
