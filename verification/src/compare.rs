//! Comparing handles by what they hold.
use crate::boxed::Box;
use crate::pool::Pool;
use core::cmp::Ordering;
use vstd::prelude::*;
use vstd::std_specs::cmp::{PartialEqSpec, PartialEqSpecImpl, PartialOrdSpec, PartialOrdSpecImpl};

verus! {

impl<P: Pool> PartialEq for Box<P> where P::Item: PartialEq {
    /// Two handles are equal when their items are.
    fn eq(&self, rhs: &Box<P>) -> (r: bool) {
        **self == **rhs
    }
}

impl<P: Pool> PartialEqSpecImpl for Box<P> where P::Item: PartialEq {
    open spec fn obeys_eq_spec() -> bool {
        <P::Item>::obeys_eq_spec()
    }

    open spec fn eq_spec(&self, other: &Box<P>) -> bool {
        self@.eq_spec(&other@)
    }
}

impl<P: Pool> Eq for Box<P> where P::Item: Eq {
}

impl<P: Pool> PartialOrd for Box<P> where P::Item: PartialOrd {
    /// Handles are ordered as their items are.
    fn partial_cmp(&self, rhs: &Box<P>) -> (r: Option<Ordering>) {
        (**self).partial_cmp(&**rhs)
    }
}

impl<P: Pool> PartialOrdSpecImpl for Box<P> where P::Item: PartialOrd {
    open spec fn obeys_partial_cmp_spec() -> bool {
        <P::Item>::obeys_partial_cmp_spec()
    }

    open spec fn partial_cmp_spec(&self, other: &Box<P>) -> Option<Ordering> {
        self@.partial_cmp_spec(&other@)
    }
}

} // verus!
