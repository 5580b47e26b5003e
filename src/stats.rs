//! The statistics record and its sanity rules.
use vstd::prelude::*;
use crate::error::PiholeError;

verus! {

/// The bit pattern of the binary64 number 100.0.
pub const HUNDRED_BITS: u64 = 0x4059_0000_0000_0000;

/// The bit pattern of the binary64 number +infinity.
pub const INFINITY_BITS: u64 = 0x7ff0_0000_0000_0000;

/// A share in percent, held as the bit pattern of an IEEE 754 binary64 number.
#[derive(Clone, Copy, Debug, PartialEq, Eq, Structural)]
pub struct Percentage {
    pub bits: u64,
}

/// Whether the binary64 number with bit pattern `bits` is greater than 100.
///
/// A number above 100 is positive and not NaN. Among those patterns (sign bit
/// clear, up to +infinity) the order of the patterns read as integers is the
/// order of the numbers, so the test is a comparison of patterns.
pub open spec fn exceeds_hundred(bits: u64) -> bool {
    HUNDRED_BITS < bits && bits <= INFINITY_BITS
}

impl Percentage {
    pub fn from_bits(bits: u64) -> (r: Percentage)
        ensures
            r.bits == bits,
    {
        Percentage { bits }
    }

    pub fn to_bits(&self) -> (r: u64)
        ensures
            r == self.bits,
    {
        self.bits
    }

    /// Whether the share is greater than 100 percent.
    pub fn exceeds_hundred(&self) -> (r: bool)
        ensures
            r == exceeds_hundred(self.bits),
    {
        HUNDRED_BITS < self.bits && self.bits <= INFINITY_BITS
    }
}

/// Summary statistics of a Pi-hole instance.
#[derive(Clone, Debug)]
pub struct PiholeStats {
    pub domains_being_blocked: u64,
    pub dns_queries_today: u64,
    pub ads_blocked_today: u64,
    pub ads_percentage_today: Percentage,
    pub status: String,
}

/// Whether statistics pass the sanity rules: a status is given, and the
/// share of blocked queries does not exceed 100 percent (lower values,
/// negative ones included, are not checked).
pub open spec fn stats_sane(s: PiholeStats) -> bool {
    s.status@.len() > 0 && !exceeds_hundred(s.ads_percentage_today.bits)
}

/// The reason given for an empty status.
pub open spec fn empty_status_reason() -> Seq<char> {
    "Status field is empty"@
}

/// The reason given for a share above 100 percent.
pub open spec fn percentage_reason() -> Seq<char> {
    "Ads percentage cannot exceed 100%"@
}

/// What the sanity check answers for `s`: the first broken rule, in the
/// order status, then share.
pub open spec fn validation_outcome(s: PiholeStats, r: Result<(), PiholeError>) -> bool {
    if s.status@.len() == 0 {
        r matches Err(PiholeError::ValidationError { reason }) && reason@ == empty_status_reason()
    } else if exceeds_hundred(s.ads_percentage_today.bits) {
        r matches Err(PiholeError::ValidationError { reason }) && reason@ == percentage_reason()
    } else {
        r is Ok
    }
}

/// Checks the sanity rules on statistics that parsed.
pub fn validate_pihole_response(stats: &PiholeStats) -> (r: Result<(), PiholeError>)
    ensures
        validation_outcome(*stats, r),
        r is Ok <==> stats_sane(*stats),
{
    if stats.status.as_str().is_empty() {
        return Err(PiholeError::ValidationError { reason: "Status field is empty".to_string() });
    }
    if stats.ads_percentage_today.exceeds_hundred() {
        return Err(
            PiholeError::ValidationError { reason: "Ads percentage cannot exceed 100%".to_string() },
        );
    }
    Ok(())
}

/// The sanity check, under the name that callers outside the crate use.
pub fn validate_pihole_response_internal(stats: &PiholeStats) -> (r: Result<(), PiholeError>)
    ensures
        validation_outcome(*stats, r),
        r is Ok <==> stats_sane(*stats),
{
    validate_pihole_response(stats)
}

/// The share bound is inclusive: statistics with a status and a share of
/// exactly 100 percent pass.
pub proof fn lemma_hundred_passes(s: PiholeStats)
    requires
        s.status@.len() > 0,
        s.ads_percentage_today.bits == HUNDRED_BITS,
    ensures
        stats_sane(s),
{
}

} // verus!
