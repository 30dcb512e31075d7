//! Limits and defaults of the contract.

use crate::types::JurorParams;
use vstd::prelude::*;

verus! {

/// 100 units at 7 decimals.
pub const DEFAULT_MIN_JUROR_STAKE: i128 = 100_0000000;

pub const DEFAULT_JURY_SIZE: u32 = 3;

/// How long jurors have to finish voting before anyone can force-resolve the
/// dispute, unless the admin configures otherwise: 3 days.
pub const DEFAULT_DISPUTE_VOTING_WINDOW: u64 = 3 * 24 * 60 * 60;

/// 1 hour.
pub const MIN_DISPUTE_VOTING_WINDOW: u64 = 60 * 60;

/// 30 days.
pub const MAX_DISPUTE_VOTING_WINDOW: u64 = 30 * 24 * 60 * 60;

/// Fraction of a losing juror's stake slashed on a resolved dispute: 10%.
pub const DEFAULT_JUROR_SLASH_BPS: u32 = 1000;

/// Hard ceiling on the protocol fee, whatever the admin asks for: 20%.
pub const MAX_FEE_BPS: u32 = 2000;

/// Hard ceiling on the juror slash rate: 50%.
pub const MAX_SLASH_BPS: u32 = 5000;

/// Hard ceiling on the juror arbitration fee: 10%.
pub const MAX_ARBITRATION_FEE_BPS: u32 = 1000;

/// Per-call cap on the extension of a deadline: 1 year.
pub const MAX_DEADLINE_EXTENSION_SECONDS: u64 = 365 * 24 * 60 * 60;

/// Upper bound, in bytes, on milestone descriptions and dispute evidence.
pub const MAX_STRING_LENGTH: u32 = 512;

pub const MAX_MILESTONES: u32 = 50;

/// How many follow-up evidence entries one dispute can accumulate.
pub const MAX_ADDITIONAL_EVIDENCE: u32 = 10;

/// How long an escrow can stay unfunded before anyone can expire it: 30 days.
pub const UNFUNDED_EXPIRY_WINDOW: u64 = 30 * 24 * 60 * 60;

pub const BPS_DENOMINATOR: i128 = 10_000;

/// Reputation gained by the winner of a resolved dispute.
pub const DISPUTE_WIN_REPUTATION: i32 = 2;

/// Reputation lost by the loser of a resolved dispute.
pub const DISPUTE_LOSS_REPUTATION: i32 = 1;

/// Reputation gained by both parties when an escrow completes without ever
/// having been disputed.
pub const CLEAN_COMPLETION_REPUTATION: i32 = 1;

/// The juror requirements until the admin configures others: no reputation
/// gate and no arbitration fee.
pub open spec fn default_juror_params() -> JurorParams {
    JurorParams {
        min_stake: DEFAULT_MIN_JUROR_STAKE,
        jury_size: DEFAULT_JURY_SIZE,
        slash_bps: DEFAULT_JUROR_SLASH_BPS,
        min_reputation: i32::MIN,
        arbitration_fee_bps: 0,
    }
}

/// The juror requirements that the contract accepts.
pub open spec fn juror_params_ok(p: JurorParams) -> bool {
    &&& p.min_stake > 0
    &&& p.jury_size % 2 == 1
    &&& p.slash_bps <= MAX_SLASH_BPS
    &&& p.arbitration_fee_bps <= MAX_ARBITRATION_FEE_BPS
}

impl Default for JurorParams {
    fn default() -> (p: JurorParams)
        ensures
            p == default_juror_params(),
    {
        JurorParams {
            min_stake: DEFAULT_MIN_JUROR_STAKE,
            jury_size: DEFAULT_JURY_SIZE,
            slash_bps: DEFAULT_JUROR_SLASH_BPS,
            min_reputation: i32::MIN,
            arbitration_fee_bps: 0,
        }
    }
}

} // verus!
