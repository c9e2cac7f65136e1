//! Values that must not appear in logs.
use vstd::prelude::*;
use vstd::std_specs::cmp::{PartialEqSpec, PartialOrdSpec};

verus! {

/// Marks a type whose values must never be logged as they are.
pub trait Sensitive {

}

/// Wraps a value so that its debug text does not show it.
#[derive(Eq, Ord, Hash)]
pub struct Scrubbed<T>(pub T);

impl<T> Sensitive for Scrubbed<T> {

}

impl<T> Scrubbed<T> {
    /// Wraps `val`.
    pub fn new(val: T) -> (scrubbed: Self)
        ensures
            scrubbed.0 == val,
    {
        Scrubbed(val)
    }

    /// Gives the value back.
    pub fn into_inner(self) -> (val: T)
        ensures
            val == self.0,
    {
        self.0
    }

    /// The debug text, which is the same for every value.
    pub fn debug_text(&self) -> (text: String)
        ensures
            text@ == "[SCRUBBED]"@,
    {
        "[SCRUBBED]".to_owned()
    }
}

impl<T: Clone> Clone for Scrubbed<T> {
    fn clone(&self) -> (copied: Self)
        ensures
            cloned(self.0, copied.0),
    {
        Scrubbed(self.0.clone())
    }
}

impl<T: Copy> Copy for Scrubbed<T> {

}

impl<T: PartialEq> PartialEq for Scrubbed<T> {
    fn eq(&self, other: &Self) -> (equal: bool) {
        self.0.eq(&other.0)
    }
}

impl<T: PartialEq> vstd::std_specs::cmp::PartialEqSpecImpl for Scrubbed<T> {
    open spec fn obeys_eq_spec() -> bool {
        T::obeys_eq_spec()
    }

    open spec fn eq_spec(&self, other: &Self) -> bool {
        self.0.eq_spec(&other.0)
    }
}

impl<T: PartialOrd> PartialOrd for Scrubbed<T> {
    fn partial_cmp(&self, other: &Self) -> (order: Option<core::cmp::Ordering>) {
        self.0.partial_cmp(&other.0)
    }
}

impl<T: PartialOrd> vstd::std_specs::cmp::PartialOrdSpecImpl for Scrubbed<T> {
    open spec fn obeys_partial_cmp_spec() -> bool {
        T::obeys_partial_cmp_spec()
    }

    open spec fn partial_cmp_spec(&self, other: &Self) -> Option<core::cmp::Ordering> {
        self.0.partial_cmp_spec(&other.0)
    }
}

/// Two wrapped values are equal, and ordered, as what they wrap.
pub proof fn wrapped_values_are_compared<T: PartialOrd>(first: Scrubbed<T>, second: Scrubbed<T>)
    ensures
        first.eq_spec(&second) == first.0.eq_spec(&second.0),
        first.partial_cmp_spec(&second) == first.0.partial_cmp_spec(&second.0),
        Scrubbed::<T>::obeys_eq_spec() == T::obeys_eq_spec(),
        Scrubbed::<T>::obeys_partial_cmp_spec() == T::obeys_partial_cmp_spec(),
{
}

} // verus!
