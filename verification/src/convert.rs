//! Traits for conversions between types.
use vstd::prelude::*;

verus! {

/// A cheap reference-to-reference conversion that has a possibility to fail.
pub trait MaybeAsRef<T> {
    /// The value this conversion yields, if any. Unless an implementation
    /// says otherwise, a conversion is taken to yield nothing.
    open spec fn maybe_view(&self) -> Option<T> {
        None
    }

    /// Performs the conversion.
    fn maybe_as_ref(&self) -> (r: Option<&T>)
        ensures
            match r {
                Some(c) => self.maybe_view() == Some(*c),
                None => self.maybe_view() is None,
            },
    ;
}

impl<T, U: MaybeAsRef<T>> MaybeAsRef<T> for Option<U> {
    open spec fn maybe_view(&self) -> Option<T> {
        match self {
            Some(u) => u.maybe_view(),
            None => None,
        }
    }

    fn maybe_as_ref(&self) -> (r: Option<&T>) {
        match self {
            Some(u) => u.maybe_as_ref(),
            None => None,
        }
    }
}

} // verus!
