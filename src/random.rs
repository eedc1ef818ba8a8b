use vstd::prelude::*;

verus! {

/// Relies on rand::random for fresh client ids: it draws a value from the
/// thread-local generator, so nothing is promised of the value.
pub assume_specification<T>[ rand::random::<T> ]() -> (r: T)
    where
        rand::distributions::Standard: rand::distributions::Distribution<T>,
;

} // verus!
