//! Position error counters for `act refactor`.
//!
//! Parse errors count rejected `LINE:COL` values; conversion errors count
//! valid positions that could not be turned into a byte offset of the target
//! file. Counters saturate at `u64::MAX`.

use vstd::prelude::*;

verus! {

/// The next value of an error counter.
pub open spec fn next_count(count: u64) -> u64 {
    if count == u64::MAX {
        u64::MAX
    } else {
        (count + 1) as u64
    }
}

/// Position error counters.
#[derive(Debug, Clone, Copy)]
pub struct AtomicPositionMetrics {
    pub parse_errors: u64,
    pub conversion_errors: u64,
}

/// Advances an error counter by one, saturating.
pub fn increment_error_counter(count: u64) -> (r: u64)
    ensures
        r == next_count(count),
{
    count.saturating_add(1)
}

impl AtomicPositionMetrics {
    /// Counters at zero.
    pub fn new() -> (m: Self)
        ensures
            m.parse_errors == 0,
            m.conversion_errors == 0,
    {
        AtomicPositionMetrics { parse_errors: 0, conversion_errors: 0 }
    }

    /// Records a rejected `LINE:COL` value.
    pub fn increment_parse_error(&mut self)
        ensures
            final(self).parse_errors == next_count(old(self).parse_errors),
            final(self).conversion_errors == old(self).conversion_errors,
    {
        self.parse_errors = increment_error_counter(self.parse_errors);
    }

    /// Records a position that could not be converted to a byte offset.
    pub fn increment_conversion_error(&mut self)
        ensures
            final(self).conversion_errors == next_count(old(self).conversion_errors),
            final(self).parse_errors == old(self).parse_errors,
    {
        self.conversion_errors = increment_error_counter(self.conversion_errors);
    }

    /// The parse and conversion error counts.
    pub fn test_counter_values(&self) -> (r: (u64, u64))
        ensures
            r == (self.parse_errors, self.conversion_errors),
    {
        (self.parse_errors, self.conversion_errors)
    }

    /// Sets both counters back to zero.
    pub fn reset_test_counters(&mut self)
        ensures
            final(self).parse_errors == 0,
            final(self).conversion_errors == 0,
    {
        self.parse_errors = 0;
        self.conversion_errors = 0;
    }
}

} // verus!
