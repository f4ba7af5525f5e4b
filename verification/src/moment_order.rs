use core::cmp::Ordering;
use vstd::prelude::*;
use vstd::std_specs::cmp::PartialOrdSpecImpl;

use crate::date_or_date_time::{time_position, DateOrDateTime};

verus! {

/// The order of moments is the order in time of their instants: a whole day stands at its
/// midnight, so a whole day and the instant of its midnight are neither before the other.
impl PartialOrd for DateOrDateTime {
    fn partial_cmp(&self, other: &Self) -> (r: Option<Ordering>) {
        let mine = time_position(&self.to_instant());
        let theirs = time_position(&other.to_instant());
        if mine < theirs {
            Some(Ordering::Less)
        } else if mine == theirs {
            Some(Ordering::Equal)
        } else {
            Some(Ordering::Greater)
        }
    }
}

impl PartialOrdSpecImpl for DateOrDateTime {
    open spec fn obeys_partial_cmp_spec() -> bool {
        true
    }

    open spec fn partial_cmp_spec(&self, other: &Self) -> Option<Ordering> {
        if self.is_before(*other) {
            Some(Ordering::Less)
        } else if other.is_before(*self) {
            Some(Ordering::Greater)
        } else {
            Some(Ordering::Equal)
        }
    }
}

} // verus!
