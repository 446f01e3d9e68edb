//! A point in time held as seconds since the epoch, with its calendar fields
//! computed on first use.

use crate::calendar::{Day, DtCache, Month};
use crate::lazy::{Lazy, Producer};
use crate::stamp::{format_fields, time_stamp};
use vstd::prelude::*;

verus! {

/// Produces the calendar fields of a fixed seconds count.
#[derive(Clone, Copy)]
pub struct Converter {
    pub secs: usize,
}

impl Producer<DtCache> for Converter {
    open spec fn result(&self) -> DtCache {
        DtCache::calendar(self.secs as nat)
    }

    fn produce(&self) -> (r: DtCache) {
        DtCache::from_secs(self.secs)
    }
}

/// A date and time in UTC.
pub struct DateTime {
    secs: usize,
    cache: Lazy<DtCache, Converter>,
}

impl View for DateTime {
    type V = nat;

    /// Seconds since 1970-01-01T00:00:00 UTC.
    closed spec fn view(&self) -> nat {
        self.secs as nat
    }
}

impl DateTime {
    #[verifier::type_invariant]
    spec fn cache_matches(&self) -> bool {
        self.cache.value() == DtCache::calendar(self.secs as nat)
    }

    /// The calendar fields of this instant.
    pub open spec fn fields(&self) -> DtCache {
        DtCache::calendar(self@)
    }

    /// The instant `secs` seconds after the epoch. No conversion is done until
    /// a field is read.
    pub fn from_secs(secs: usize) -> (r: DateTime)
        ensures
            r@ == secs,
    {
        DateTime { secs, cache: Lazy::new(Converter { secs }) }
    }

    /// Seconds since the epoch.
    pub fn secs(&self) -> (r: usize)
        ensures
            r == self@,
    {
        self.secs
    }

    pub fn year(&self) -> (r: usize)
        ensures
            r == self.fields().year,
    {
        proof {
            use_type_invariant(self);
        }
        self.cache.get().year
    }

    pub fn month(&self) -> (r: Month)
        ensures
            r == self.fields().month,
    {
        proof {
            use_type_invariant(self);
        }
        self.cache.get().month
    }

    /// The day of the week.
    pub fn day(&self) -> (r: Day)
        ensures
            r == self.fields().day,
    {
        proof {
            use_type_invariant(self);
        }
        self.cache.get().day
    }

    /// The day of the month, from 1.
    pub fn date(&self) -> (r: usize)
        ensures
            r == self.fields().date,
    {
        proof {
            use_type_invariant(self);
        }
        self.cache.get().date
    }

    pub fn hour(&self) -> (r: usize)
        ensures
            r == self.fields().hour,
    {
        proof {
            use_type_invariant(self);
        }
        self.cache.get().hour
    }

    pub fn minute(&self) -> (r: usize)
        ensures
            r == self.fields().minute,
    {
        proof {
            use_type_invariant(self);
        }
        self.cache.get().minute
    }

    pub fn second(&self) -> (r: usize)
        ensures
            r == self.fields().second,
    {
        proof {
            use_type_invariant(self);
        }
        self.cache.get().second
    }

    /// The time stamp of this instant, as in `Mon Sep 9, 1996  15:23:44 (UTC)`.
    pub fn as_time_stamp(&self) -> (r: String)
        ensures
            r@ == time_stamp(self.fields()),
    {
        proof {
            use_type_invariant(self);
        }
        format_fields(&self.cache.get())
    }

    /// The instant whose seconds count is the sum of the two.
    pub fn add(self, other: &DateTime) -> (r: DateTime)
        requires
            self@ + other@ <= usize::MAX,
        ensures
            r@ == self@ + other@,
    {
        DateTime::from_secs(self.secs + other.secs)
    }

    /// Adds the seconds of `other` to this instant. Fields computed before
    /// are dropped and computed afresh on the next read.
    pub fn add_assign(&mut self, other: &DateTime)
        requires
            old(self)@ + other@ <= usize::MAX,
        ensures
            final(self)@ == old(self)@ + other@,
            final(self).fields() == DtCache::calendar(old(self)@ + other@),
    {
        let secs = self.secs + other.secs;
        *self = DateTime::from_secs(secs);
    }
}

} // verus!
