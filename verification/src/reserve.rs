//! Fallible reservations of room in growable buffers.
use std::collections::TryReserveError;

use vstd::prelude::*;

verus! {

/// Reserves room for `additional` more bytes in `output`
/// (`qubit_utils::try_reserve_string`); the text is left as it was, and the
/// reservation may fail.
#[verifier::external_body]
pub(crate) fn reserve_string(output: &mut String, additional: usize) -> (result: Result<(), TryReserveError>)
    ensures
        final(output)@ == old(output)@,
{
    qubit_utils::try_reserve_string(output, additional)
}

/// Reserves room for `additional` more items in `output`
/// (`qubit_utils::try_reserve_vec`); the items are left as they were, and
/// the reservation may fail.
#[verifier::external_body]
pub(crate) fn reserve_vec<T>(output: &mut Vec<T>, additional: usize) -> (result: Result<(), TryReserveError>)
    ensures
        final(output)@ == old(output)@,
{
    qubit_utils::try_reserve_vec(output, additional)
}

} // verus!
