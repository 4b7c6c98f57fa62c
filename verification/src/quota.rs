//! The ceiling on the requests a project serves in one billing period, and
//! when a period is over.

use vstd::prelude::*;
use crate::model::ProjectRequestLimit;

verus! {

/// The length of a billing period in milliseconds: 30.4375 days.
pub const BILLING_PERIOD_MS: u128 = 2_629_800_000;

/// The ceiling of the default tier.
pub const DEFAULT_CEILING: i64 = 1_000_000;

/// The ceiling of the enterprise tier.
pub const ENTERPRISE_CEILING: i64 = 100_000_000;

/// The ceiling of a tier; none where requests are not held against a limit.
pub open spec fn spec_ceiling(tier: ProjectRequestLimit) -> Option<i64> {
    match tier {
        ProjectRequestLimit::Default => Some(DEFAULT_CEILING),
        ProjectRequestLimit::Enterprise => Some(ENTERPRISE_CEILING),
        ProjectRequestLimit::Disabled => None,
    }
}

/// Whether a project that has served `usage` requests may serve one more.
pub open spec fn spec_within_quota(tier: ProjectRequestLimit, usage: i64) -> bool {
    match spec_ceiling(tier) {
        Some(ceiling) => usage < ceiling,
        None => true,
    }
}

/// Whether the period that began at `start` is over at `now`.
pub open spec fn spec_period_elapsed(start: u128, now: u128) -> bool {
    now >= start && now - start >= BILLING_PERIOD_MS
}

/// The ceiling of a tier; none where requests are not held against a limit.
pub fn ceiling(tier: ProjectRequestLimit) -> (r: Option<i64>)
    ensures
        r == spec_ceiling(tier),
{
    match tier {
        ProjectRequestLimit::Default => Some(DEFAULT_CEILING),
        ProjectRequestLimit::Enterprise => Some(ENTERPRISE_CEILING),
        ProjectRequestLimit::Disabled => None,
    }
}

/// Whether a project that has served `usage` requests may serve one more.
pub fn within_quota(tier: ProjectRequestLimit, usage: i64) -> (r: bool)
    ensures
        r == spec_within_quota(tier, usage),
{
    match ceiling(tier) {
        Some(c) => usage < c,
        None => true,
    }
}

/// Whether the period that began at `start` is over at `now`.
pub fn period_elapsed(start: u128, now: u128) -> (r: bool)
    ensures
        r == spec_period_elapsed(start, now),
{
    now >= start && now - start >= BILLING_PERIOD_MS
}

} // verus!
