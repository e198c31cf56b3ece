//! The counters of a run.

use vstd::prelude::*;

verus! {

/// Counters of successes, errors, round-trip time and retries. Each wraps
/// around at the limit of its type.
#[derive(Debug)]
pub struct ApiStats {
    success_counter: u32,
    error_counter: u32,
    total_rtt: u64,
    total_retry: u32,
}

/// The four counters.
pub struct ApiStatsView {
    pub success: u32,
    pub error: u32,
    pub rtt: u64,
    pub retry: u32,
}

/// `a + b` wrapped around at the limit of a `u32`.
pub open spec fn wrap32(a: int, b: int) -> u32 {
    ((a + b) % 0x1_0000_0000) as u32
}

/// `a + b` wrapped around at the limit of a `u64`.
pub open spec fn wrap64(a: int, b: int) -> u64 {
    ((a + b) % 0x1_0000_0000_0000_0000) as u64
}

fn add32(a: u32, b: u32) -> (r: u32)
    ensures
        r == wrap32(a as int, b as int),
{
    if b > u32::MAX - a {
        b - (u32::MAX - a) - 1
    } else {
        a + b
    }
}

fn add64(a: u64, b: u64) -> (r: u64)
    ensures
        r == wrap64(a as int, b as int),
{
    if b > u64::MAX - a {
        b - (u64::MAX - a) - 1
    } else {
        a + b
    }
}

impl View for ApiStats {
    type V = ApiStatsView;

    closed spec fn view(&self) -> ApiStatsView {
        ApiStatsView {
            success: self.success_counter,
            error: self.error_counter,
            rtt: self.total_rtt,
            retry: self.total_retry,
        }
    }
}

impl ApiStats {
    /// Counters that all stand at zero.
    pub fn new() -> (r: ApiStats)
        ensures
            r@ == (ApiStatsView { success: 0, error: 0, rtt: 0, retry: 0 }),
    {
        ApiStats { success_counter: 0, error_counter: 0, total_rtt: 0, total_retry: 0 }
    }

    /// Counts one success.
    pub fn inc_success(&mut self)
        ensures
            final(self)@ == (ApiStatsView {
                success: wrap32(old(self)@.success as int, 1),
                ..old(self)@
            }),
    {
        self.success_counter = add32(self.success_counter, 1);
    }

    /// The number of successes.
    pub fn get_success(&self) -> (r: u32)
        ensures
            r == self@.success,
    {
        self.success_counter
    }

    /// Counts one error.
    pub fn inc_error(&mut self)
        ensures
            final(self)@ == (ApiStatsView {
                error: wrap32(old(self)@.error as int, 1),
                ..old(self)@
            }),
    {
        self.error_counter = add32(self.error_counter, 1);
    }

    /// The number of errors.
    pub fn get_error(&self) -> (r: u32)
        ensures
            r == self@.error,
    {
        self.error_counter
    }

    /// Adds a round-trip time in microseconds to the total.
    pub fn inc_rtt(&mut self, rtt: u64)
        ensures
            final(self)@ == (ApiStatsView {
                rtt: wrap64(old(self)@.rtt as int, rtt as int),
                ..old(self)@
            }),
    {
        self.total_rtt = add64(self.total_rtt, rtt);
    }

    /// The total round-trip time in microseconds.
    pub fn get_rtt(&self) -> (r: u64)
        ensures
            r == self@.rtt,
    {
        self.total_rtt
    }

    /// Adds a number of retries to the total.
    pub fn inc_retry(&mut self, retry: u32)
        ensures
            final(self)@ == (ApiStatsView {
                retry: wrap32(old(self)@.retry as int, retry as int),
                ..old(self)@
            }),
    {
        self.total_retry = add32(self.total_retry, retry);
    }

    /// The total number of retries.
    pub fn get_retry(&self) -> (r: u32)
        ensures
            r == self@.retry,
    {
        self.total_retry
    }
}

} // verus!
