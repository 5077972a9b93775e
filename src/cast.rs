use clippy_utilities::Cast;
use vstd::prelude::*;

verus! {

/// Relies on `clippy_utilities::Cast::cast`: a `TryFrom` conversion that
/// keeps the value when it fits the target (and panics otherwise).
#[verifier::external_body]
pub(crate) fn usize_to_i64(v: usize) -> (r: i64)
    requires
        v as int <= i64::MAX as int,
    ensures
        r as int == v as int,
{
    v.cast()
}

/// Relies on `clippy_utilities::Cast::cast`: a `TryFrom` conversion that
/// keeps the value when it fits the target (and panics otherwise).
#[verifier::external_body]
pub(crate) fn i64_to_usize(v: i64) -> (r: usize)
    requires
        0 <= v as int <= usize::MAX as int,
    ensures
        r as int == v as int,
{
    v.cast()
}

} // verus!
