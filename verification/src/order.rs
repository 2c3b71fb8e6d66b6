//! Chronological ordering of [`Utc2k`].

use vstd::prelude::*;
use vstd::std_specs::cmp::PartialOrdSpecImpl;
use core::cmp::Ordering;
use crate::{FmtLocal2k, Local2k, Utc2k};

verus! {

/// How two second counts compare.
pub open spec fn order_of(a: int, b: int) -> Ordering {
    if a < b { Ordering::Less } else if a == b { Ordering::Equal } else { Ordering::Greater }
}

impl PartialOrd for Utc2k {
    /// Moments compare by date first, and by time within the same date.
    fn partial_cmp(&self, other: &Self) -> (r: Option<Ordering>) {
        let a = *self;
        let b = *other;
        proof {
            use_type_invariant(&a);
            use_type_invariant(&b);
            crate::calendar::lemma_valid_secs_range(a.year_spec(), a.month_spec(), a.day_spec(), a.hour_spec(), a.minute_spec(), a.second_spec());
            crate::calendar::lemma_valid_secs_range(b.year_spec(), b.month_spec(), b.day_spec(), b.hour_spec(), b.minute_spec(), b.second_spec());
        }
        let c = a.cmp_date(b);
        let r = match c {
            Ordering::Equal => a.cmp_time(b),
            Ordering::Less => Ordering::Less,
            Ordering::Greater => Ordering::Greater,
        };
        Some(r)
    }
}

impl PartialOrdSpecImpl for Utc2k {
    open spec fn obeys_partial_cmp_spec() -> bool {
        true
    }

    open spec fn partial_cmp_spec(&self, other: &Self) -> Option<Ordering> {
        Some(order_of(self.secs(), other.secs()))
    }
}

impl PartialOrd for Local2k {
    /// Local date/times compare as the moments they stand for.
    fn partial_cmp(&self, other: &Self) -> (r: Option<Ordering>) {
        if self.offset == other.offset {
            proof { use_type_invariant(self); use_type_invariant(other); }
            self.inner.partial_cmp(&other.inner)
        } else {
            let a = self.unixtime();
            let b = other.unixtime();
            Some(if a < b { Ordering::Less } else if a == b { Ordering::Equal } else { Ordering::Greater })
        }
    }
}

impl PartialOrdSpecImpl for Local2k {
    open spec fn obeys_partial_cmp_spec() -> bool {
        true
    }

    open spec fn partial_cmp_spec(&self, other: &Self) -> Option<Ordering> {
        Some(order_of(self.utc_secs(), other.utc_secs()))
    }
}

impl PartialOrd for FmtLocal2k {
    /// Formatted local date/times compare as the moments they stand for.
    fn partial_cmp(&self, other: &Self) -> (r: Option<Ordering>) {
        let a = Local2k::from_fmtlocal2k(*self);
        let b = Local2k::from_fmtlocal2k(*other);
        proof { use_type_invariant(self); use_type_invariant(other); }
        a.partial_cmp(&b)
    }
}

impl PartialOrdSpecImpl for FmtLocal2k {
    open spec fn obeys_partial_cmp_spec() -> bool {
        true
    }

    open spec fn partial_cmp_spec(&self, other: &Self) -> Option<Ordering> {
        Some(order_of(self.utc_secs(), other.utc_secs()))
    }
}

} // verus!
