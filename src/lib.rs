//! Turns a count of seconds since 1970-01-01T00:00:00 UTC into a calendar
//! date and clock time, computed lazily and memoised, and renders it as a
//! short time stamp.

pub mod calendar;
pub mod datetime;
pub mod lazy;
pub mod stamp;

pub use datetime::DateTime;
pub use calendar::{get_day, is_leap_year, Day, DtCache, Month};
pub use lazy::{Lazy, Producer};
