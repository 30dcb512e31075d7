//! What each call of the admin asks for and what it sets.

use crate::errors::Error;
use crate::laws::values::refuses;
use crate::state::State;
use crate::types::{Address, Effect, FeeConfig, JurorParams};
use vstd::prelude::*;

verus! {

/// Setup goes through while there is no admin, and appoints the caller.
pub proof fn law_initialize(s: State, admin: Address)
    ensures
        ({
            let (t, r) = s.initialize(admin);
            &&& r is Ok <==> s.admin is None
            &&& refuses(r, Error::AlreadyInitialized) <==> s.admin is Some
            &&& t == (State {
                admin: t.admin,
                effects: s.effects.push(Effect::RequireAuth { who: admin }),
                ..s
            })
            &&& r is Ok ==> t.admin == Some(admin)
            &&& r is Err ==> t.admin == s.admin
        }),
{
}

/// Only the admin proposes another one, and stays admin meanwhile.
pub proof fn law_transfer_admin(s: State, current: Address, new: Address)
    ensures
        ({
            let (t, r) = s.transfer_admin(current, new);
            &&& r is Ok <==> s.admin == Some(current)
            &&& refuses(r, Error::NotAuthorized) <==> s.admin != Some(current)
            &&& t == (State {
                pending_admin: t.pending_admin,
                effects: s.effects.push(Effect::RequireAuth { who: current }),
                ..s
            })
            &&& r is Ok ==> t.pending_admin == Some(new)
            &&& r is Err ==> t.pending_admin == s.pending_admin
        }),
{
}

/// Only the proposed admin accepts, takes over, and ends the proposal.
pub proof fn law_accept_admin_transfer(s: State, new: Address)
    ensures
        ({
            let (t, r) = s.accept_admin_transfer(new);
            &&& r is Ok <==> s.pending_admin == Some(new)
            &&& refuses(r, Error::NotAuthorized) <==> s.pending_admin != Some(new)
            &&& t == (State {
                admin: t.admin,
                pending_admin: t.pending_admin,
                effects: s.effects.push(Effect::RequireAuth { who: new }),
                ..s
            })
            &&& r is Ok ==> t.admin == Some(new) && t.pending_admin is None
            &&& r is Err ==> t.admin == s.admin && t.pending_admin == s.pending_admin
        }),
{
}

/// The admin sets any voting window from an hour to thirty days.
pub proof fn law_set_dispute_voting_window(s: State, admin: Address, seconds: u64)
    ensures
        ({
            let (t, r) = s.set_dispute_voting_window(admin, seconds);
            &&& r is Ok <==> s.admin == Some(admin) && 3_600 <= seconds <= 2_592_000
            &&& refuses(r, Error::NotAuthorized) <==> s.admin != Some(admin)
            &&& refuses(r, Error::InvalidVotingWindow) <==> s.admin == Some(admin) && (seconds
                < 3_600 || seconds > 2_592_000)
            &&& t == (State {
                dispute_voting_window: t.dispute_voting_window,
                effects: s.effects.push(Effect::RequireAuth { who: admin }),
                ..s
            })
            &&& r is Ok ==> t.dispute_voting_window == seconds
            &&& r is Err ==> t.dispute_voting_window == s.dispute_voting_window
        }),
{
}

/// The admin sets any protocol fee up to a fifth, and where it goes.
pub proof fn law_set_fee_config(s: State, admin: Address, bps: u32, treasury: Address)
    ensures
        ({
            let (t, r) = s.set_fee_config(admin, bps, treasury);
            &&& r is Ok <==> s.admin == Some(admin) && bps <= 2_000
            &&& refuses(r, Error::NotAuthorized) <==> s.admin != Some(admin)
            &&& refuses(r, Error::FeeTooHigh) <==> s.admin == Some(admin) && bps > 2_000
            &&& t == (State {
                fee_config: t.fee_config,
                effects: s.effects.push(Effect::RequireAuth { who: admin }),
                ..s
            })
            &&& r is Ok ==> t.fee_config == Some(FeeConfig { bps, treasury })
            &&& r is Err ==> t.fee_config == s.fee_config
        }),
{
}

/// The admin exempts one party at a time from the protocol fee, or ends that.
pub proof fn law_set_fee_exempt(s: State, admin: Address, party: Address, exempt: bool)
    ensures
        ({
            let (t, r) = s.set_fee_exempt(admin, party, exempt);
            &&& r is Ok <==> s.admin == Some(admin)
            &&& refuses(r, Error::NotAuthorized) <==> s.admin != Some(admin)
            &&& t == (State {
                fee_exempt: t.fee_exempt,
                effects: s.effects.push(Effect::RequireAuth { who: admin }),
                ..s
            })
            &&& r is Ok ==> t.fee_exempt == s.fee_exempt.insert(party, exempt)
            &&& r is Err ==> t.fee_exempt == s.fee_exempt
        }),
{
}

/// The admin switches the weighting of votes on and off.
pub proof fn law_set_stake_weighted_voting(s: State, admin: Address, enabled: bool)
    ensures
        ({
            let (t, r) = s.set_stake_weighted_voting(admin, enabled);
            &&& r is Ok <==> s.admin == Some(admin)
            &&& refuses(r, Error::NotAuthorized) <==> s.admin != Some(admin)
            &&& t == (State {
                stake_weighted_voting: t.stake_weighted_voting,
                effects: s.effects.push(Effect::RequireAuth { who: admin }),
                ..s
            })
            &&& r is Ok ==> t.stake_weighted_voting == enabled
            &&& r is Err ==> t.stake_weighted_voting == s.stake_weighted_voting
        }),
{
}

/// The admin sets any juror requirements with a positive stake, an odd jury, a
/// slash of at most a half and an arbitration fee of at most a tenth.
pub proof fn law_set_juror_params(s: State, admin: Address, params: JurorParams)
    ensures
        ({
            let (t, r) = s.set_juror_params(admin, params);
            let JurorParams { min_stake, jury_size, slash_bps, min_reputation, arbitration_fee_bps } =
                params;
            &&& r is Ok <==> s.admin == Some(admin) && min_stake >= 1 && jury_size % 2 == 1
                && slash_bps <= 5_000 && arbitration_fee_bps <= 1_000
            &&& refuses(r, Error::NotAuthorized) <==> s.admin != Some(admin)
            &&& refuses(r, Error::InvalidAmount) <==> s.admin == Some(admin) && min_stake <= 0
            &&& refuses(r, Error::InvalidJurySize) <==> s.admin == Some(admin) && min_stake >= 1
                && jury_size % 2 == 0
            &&& refuses(r, Error::SlashTooHigh) <==> s.admin == Some(admin) && min_stake >= 1
                && jury_size % 2 == 1 && slash_bps > 5_000
            &&& refuses(r, Error::ArbitrationFeeTooHigh) <==> s.admin == Some(admin) && min_stake
                >= 1 && jury_size % 2 == 1 && slash_bps <= 5_000 && arbitration_fee_bps > 1_000
            &&& t == (State {
                juror_params: t.juror_params,
                effects: s.effects.push(Effect::RequireAuth { who: admin }),
                ..s
            })
            &&& r is Ok ==> t.juror_params == params
            &&& r is Err ==> t.juror_params == s.juror_params
        }),
{
}

/// The admin pauses the contract and resumes it.
pub proof fn law_set_paused(s: State, admin: Address, paused: bool)
    ensures
        ({
            let (t, r) = s.set_paused(admin, paused);
            &&& r is Ok <==> s.admin == Some(admin)
            &&& refuses(r, Error::NotAuthorized) <==> s.admin != Some(admin)
            &&& t == (State {
                paused: t.paused,
                effects: s.effects.push(Effect::RequireAuth { who: admin }),
                ..s
            })
            &&& r is Ok ==> t.paused == paused
            &&& r is Err ==> t.paused == s.paused
        }),
{
}

} // verus!
