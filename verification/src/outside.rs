use vstd::prelude::*;

verus! {

/// The error type of the `scroll` crate, carried through opaquely.
#[verifier::external_type_specification]
#[verifier::external_body]
#[verifier::reject_recursive_types(T)]
pub struct ExScrollError<T>(scroll::Error<T>);

} // verus!
