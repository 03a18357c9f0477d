//! Exact progress arithmetic: percent complete and throughput as rationals.

use vstd::prelude::*;

verus! {

/// An exact non-negative rational number. Progress and throughput are kept
/// as numerator/denominator pairs so that no precision is lost; turning them
/// into a decimal for display is the observer's concern.
#[derive(Clone, Copy, Debug, PartialEq, Eq, Structural)]
pub struct Ratio {
    pub num: u128,
    pub den: u128,
}

impl Ratio {
    /// A ratio is meaningful only with a non-zero denominator.
    pub open spec fn wf(self) -> bool {
        self.den > 0
    }

    /// The ratio is exactly the integer `v`.
    pub open spec fn is_exactly(self, v: int) -> bool {
        self.den > 0 && self.num == v * self.den
    }
}

/// The percentage `bytes_uploaded / total_size * 100`, as an exact rational.
pub open spec fn percent_spec(bytes_uploaded: u64, total_size: u64) -> Ratio {
    Ratio { num: (bytes_uploaded as int * 100) as u128, den: total_size as u128 }
}

/// The throughput `bytes / 1000 / elapsed_ms` in KB per millisecond, as an
/// exact rational; undefined (`None`) when no time has elapsed.
pub open spec fn speed_spec(bytes: u64, elapsed_ms: u64) -> Option<Ratio> {
    if elapsed_ms == 0 {
        None
    } else {
        Some(Ratio { num: bytes as u128, den: (1000 * elapsed_ms as int) as u128 })
    }
}

/// Percent complete after `bytes_uploaded` of `total_size` bytes.
pub fn percent(bytes_uploaded: u64, total_size: u64) -> (r: Ratio)
    requires
        total_size > 0,
    ensures
        r == percent_spec(bytes_uploaded, total_size),
        r.wf(),
{
    proof {
        assert(bytes_uploaded as int * 100 <= u128::MAX as int);
    }
    Ratio { num: (bytes_uploaded as u128) * 100, den: total_size as u128 }
}

/// Throughput in KB per millisecond after `bytes` bytes in `elapsed_ms`
/// milliseconds. An elapsed time of zero yields `None` rather than a division
/// by zero.
pub fn speed(bytes: u64, elapsed_ms: u64) -> (r: Option<Ratio>)
    ensures
        r == speed_spec(bytes, elapsed_ms),
        r matches Some(s) ==> s.wf(),
{
    if elapsed_ms == 0 {
        None
    } else {
        Some(Ratio { num: bytes as u128, den: 1000u128 * (elapsed_ms as u128) })
    }
}

/// A file that has been fully uploaded reports a percentage of exactly 100.
pub proof fn lemma_percent_of_full_is_100(total_size: u64)
    requires
        total_size > 0,
    ensures
        percent_spec(total_size, total_size).is_exactly(100),
{
}

} // verus!

