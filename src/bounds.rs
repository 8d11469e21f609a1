use crate::error::Error;
use core::cmp::Ordering;
use vstd::prelude::*;
use vstd::std_specs::cmp::PartialOrdSpec;

verus! {

/// The outcome of a range check for the given order of lower and upper bound.
pub open spec fn strict_bounds_outcome(order: Option<Ordering>) -> Result<(), Error> {
    match order {
        Some(Ordering::Greater) => Err(Error::LowerBoundExceedsUpperBound),
        Some(Ordering::Equal) => Err(Error::LowerBoundEqualsUpperBound),
        _ => Ok(()),
    }
}

/// Checks that a range's lower bound lies strictly below its upper bound.
/// Bounds that do not compare (a NaN) pass. Where `T`'s order is known to
/// Verus, the outcome follows from it.
pub fn check_strict_bounds<T: PartialOrd>(lower: &T, upper: &T) -> (r: Result<(), Error>)
    ensures
        T::obeys_partial_cmp_spec() ==> r == strict_bounds_outcome(
            lower.partial_cmp_spec(upper),
        ),
        r is Ok || r == Err::<(), Error>(Error::LowerBoundExceedsUpperBound) || r == Err::<
            (),
            Error,
        >(Error::LowerBoundEqualsUpperBound),
{
    let order = lower.partial_cmp(upper);
    match order {
        Some(Ordering::Greater) => Err(Error::LowerBoundExceedsUpperBound),
        Some(Ordering::Equal) => Err(Error::LowerBoundEqualsUpperBound),
        _ => Ok(()),
    }
}

} // verus!
