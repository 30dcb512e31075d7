//! The admin key and what it configures.

use crate::errors::{Error, Failure};
use crate::params::{
    MAX_ARBITRATION_FEE_BPS, MAX_DISPUTE_VOTING_WINDOW, MAX_FEE_BPS, MAX_SLASH_BPS,
    MIN_DISPUTE_VOTING_WINDOW,
};
use crate::state::{lookup, EscrowContract, State};
use crate::types::{Address, FeeConfig, JurorParams};
use vstd::prelude::*;

verus! {

impl State {
    /// One-time setup of the admin.
    pub open spec fn initialize(self, admin: Address) -> (State, Result<(), Failure>) {
        let s = self.demand(admin);
        if s.admin is Some {
            (s, Err(Failure::Refused(Error::AlreadyInitialized)))
        } else {
            (State { admin: Some(admin), ..s }, Ok(()))
        }
    }

    /// The admin proposes another admin.
    pub open spec fn transfer_admin(self, current: Address, new: Address) -> (
        State,
        Result<(), Failure>,
    ) {
        let s = self.demand(current);
        if s.admin != Some(current) {
            (s, Err(Failure::Refused(Error::NotAuthorized)))
        } else {
            (State { pending_admin: Some(new), ..s }, Ok(()))
        }
    }

    /// The proposed admin takes over.
    pub open spec fn accept_admin_transfer(self, new: Address) -> (State, Result<(), Failure>) {
        let s = self.demand(new);
        if s.pending_admin != Some(new) {
            (s, Err(Failure::Refused(Error::NotAuthorized)))
        } else {
            (State { admin: Some(new), pending_admin: None, ..s }, Ok(()))
        }
    }

    /// The admin configures how long jurors get to vote.
    pub open spec fn set_dispute_voting_window(self, admin: Address, seconds: u64) -> (
        State,
        Result<(), Failure>,
    ) {
        let s = self.demand(admin);
        if s.admin != Some(admin) {
            (s, Err(Failure::Refused(Error::NotAuthorized)))
        } else if !(MIN_DISPUTE_VOTING_WINDOW <= seconds <= MAX_DISPUTE_VOTING_WINDOW) {
            (s, Err(Failure::Refused(Error::InvalidVotingWindow)))
        } else {
            (State { dispute_voting_window: seconds, ..s }, Ok(()))
        }
    }

    /// The admin configures the protocol fee.
    pub open spec fn set_fee_config(self, admin: Address, bps: u32, treasury: Address) -> (
        State,
        Result<(), Failure>,
    ) {
        let s = self.demand(admin);
        if s.admin != Some(admin) {
            (s, Err(Failure::Refused(Error::NotAuthorized)))
        } else if bps > MAX_FEE_BPS {
            (s, Err(Failure::Refused(Error::FeeTooHigh)))
        } else {
            (State { fee_config: Some(FeeConfig { bps, treasury }), ..s }, Ok(()))
        }
    }

    /// The admin exempts `party` from the protocol fee, or ends that.
    pub open spec fn set_fee_exempt(self, admin: Address, party: Address, exempt: bool) -> (
        State,
        Result<(), Failure>,
    ) {
        let s = self.demand(admin);
        if s.admin != Some(admin) {
            (s, Err(Failure::Refused(Error::NotAuthorized)))
        } else {
            (State { fee_exempt: s.fee_exempt.insert(party, exempt), ..s }, Ok(()))
        }
    }

    /// The admin configures whether votes on later disputes weigh by stake.
    pub open spec fn set_stake_weighted_voting(self, admin: Address, enabled: bool) -> (
        State,
        Result<(), Failure>,
    ) {
        let s = self.demand(admin);
        if s.admin != Some(admin) {
            (s, Err(Failure::Refused(Error::NotAuthorized)))
        } else {
            (State { stake_weighted_voting: enabled, ..s }, Ok(()))
        }
    }

    /// The admin configures the juror requirements.
    pub open spec fn set_juror_params(self, admin: Address, params: JurorParams) -> (
        State,
        Result<(), Failure>,
    ) {
        let s = self.demand(admin);
        if s.admin != Some(admin) {
            (s, Err(Failure::Refused(Error::NotAuthorized)))
        } else if params.min_stake <= 0 {
            (s, Err(Failure::Refused(Error::InvalidAmount)))
        } else if params.jury_size % 2 == 0 {
            (s, Err(Failure::Refused(Error::InvalidJurySize)))
        } else if params.slash_bps > MAX_SLASH_BPS {
            (s, Err(Failure::Refused(Error::SlashTooHigh)))
        } else if params.arbitration_fee_bps > MAX_ARBITRATION_FEE_BPS {
            (s, Err(Failure::Refused(Error::ArbitrationFeeTooHigh)))
        } else {
            (State { juror_params: params, ..s }, Ok(()))
        }
    }

    /// The admin stops new escrows and deposits, or lets them go on.
    pub open spec fn set_paused(self, admin: Address, paused: bool) -> (
        State,
        Result<(), Failure>,
    ) {
        let s = self.demand(admin);
        if s.admin != Some(admin) {
            (s, Err(Failure::Refused(Error::NotAuthorized)))
        } else {
            (State { paused, ..s }, Ok(()))
        }
    }
}

impl EscrowContract {
    /// Whether `caller` is the admin; demands the caller's signature first.
    fn require_admin(&mut self, caller: Address) -> (ok: bool)
        ensures
            final(self)@ == old(self)@.demand(caller),
            ok == (old(self)@.admin == Some(caller)),
    {
        self.demand(caller);
        match self.admin {
            Some(admin) => admin == caller,
            None => false,
        }
    }

    /// One-time setup. `admin` can adjust parameters later; it has no power
    /// over individual escrows.
    pub fn initialize(&mut self, admin: Address) -> (r: Result<(), Failure>)
        requires
            old(self)@.wf(),
        ensures
            (final(self)@, r) == old(self)@.initialize(admin),
            final(self)@.wf(),
    {
        self.demand(admin);
        if self.admin.is_some() {
            return Err(Failure::Refused(Error::AlreadyInitialized));
        }
        self.admin = Some(admin);
        Ok(())
    }

    /// Propose another admin. `new_admin` must independently call
    /// `accept_admin_transfer` to finalize the handoff.
    pub fn transfer_admin(&mut self, current_admin: Address, new_admin: Address) -> (r: Result<
        (),
        Failure,
    >)
        requires
            old(self)@.wf(),
        ensures
            (final(self)@, r) == old(self)@.transfer_admin(current_admin, new_admin),
            final(self)@.wf(),
    {
        if !self.require_admin(current_admin) {
            return Err(Failure::Refused(Error::NotAuthorized));
        }
        self.pending_admin = Some(new_admin);
        Ok(())
    }

    /// Finalizes a transfer proposed by `transfer_admin`. Must be called by the
    /// proposed address itself.
    pub fn accept_admin_transfer(&mut self, new_admin: Address) -> (r: Result<(), Failure>)
        requires
            old(self)@.wf(),
        ensures
            (final(self)@, r) == old(self)@.accept_admin_transfer(new_admin),
            final(self)@.wf(),
    {
        self.demand(new_admin);
        match self.pending_admin {
            Some(pending) => {
                if pending != new_admin {
                    return Err(Failure::Refused(Error::NotAuthorized));
                }
            },
            None => {
                return Err(Failure::Refused(Error::NotAuthorized));
            },
        }
        self.admin = Some(new_admin);
        self.pending_admin = None;
        Ok(())
    }

    /// The admin; refused until there is one.
    pub fn get_admin(&self) -> (r: Result<Address, Failure>)
        ensures
            r == match self@.admin {
                Some(admin) => Ok::<Address, Failure>(admin),
                None => Err(Failure::Refused(Error::NotAuthorized)),
            },
    {
        match self.admin {
            Some(admin) => Ok(admin),
            None => Err(Failure::Refused(Error::NotAuthorized)),
        }
    }

    /// The proposed admin, while a transfer is pending.
    pub fn get_pending_admin(&self) -> (r: Option<Address>)
        ensures
            r == self@.pending_admin,
    {
        self.pending_admin
    }

    /// How long jurors get to vote before a dispute can be force-resolved,
    /// between `MIN_DISPUTE_VOTING_WINDOW` and `MAX_DISPUTE_VOTING_WINDOW`.
    pub fn set_dispute_voting_window(&mut self, admin: Address, seconds: u64) -> (r: Result<
        (),
        Failure,
    >)
        requires
            old(self)@.wf(),
        ensures
            (final(self)@, r) == old(self)@.set_dispute_voting_window(admin, seconds),
            final(self)@.wf(),
    {
        if !self.require_admin(admin) {
            return Err(Failure::Refused(Error::NotAuthorized));
        }
        if seconds < MIN_DISPUTE_VOTING_WINDOW || seconds > MAX_DISPUTE_VOTING_WINDOW {
            return Err(Failure::Refused(Error::InvalidVotingWindow));
        }
        self.dispute_voting_window = seconds;
        Ok(())
    }

    /// How long jurors get to vote.
    pub fn get_dispute_voting_window(&self) -> (seconds: u64)
        ensures
            seconds == self@.dispute_voting_window,
    {
        self.dispute_voting_window
    }

    /// Set (or update) the protocol fee taken out of every payout. `bps` is
    /// capped at `MAX_FEE_BPS`; 0 disables the fee.
    pub fn set_fee_config(&mut self, admin: Address, bps: u32, treasury: Address) -> (r: Result<
        (),
        Failure,
    >)
        requires
            old(self)@.wf(),
        ensures
            (final(self)@, r) == old(self)@.set_fee_config(admin, bps, treasury),
            final(self)@.wf(),
    {
        if !self.require_admin(admin) {
            return Err(Failure::Refused(Error::NotAuthorized));
        }
        if bps > MAX_FEE_BPS {
            return Err(Failure::Refused(Error::FeeTooHigh));
        }
        self.fee_config = Some(FeeConfig { bps, treasury });
        Ok(())
    }

    /// The protocol fee, once configured.
    pub fn get_fee_config(&self) -> (r: Option<FeeConfig>)
        ensures
            r == self@.fee_config,
    {
        self.fee_config
    }

    /// Free payouts to `party` from the protocol fee, or end that.
    pub fn set_fee_exempt(&mut self, admin: Address, party: Address, exempt: bool) -> (r: Result<
        (),
        Failure,
    >)
        requires
            old(self)@.wf(),
        ensures
            (final(self)@, r) == old(self)@.set_fee_exempt(admin, party, exempt),
            final(self)@.wf(),
    {
        if !self.require_admin(admin) {
            return Err(Failure::Refused(Error::NotAuthorized));
        }
        self.fee_exempt.insert(party, exempt);
        Ok(())
    }

    /// Whether payouts to `party` are free of the protocol fee.
    pub fn is_fee_exempt(&self, party: Address) -> (b: bool)
        ensures
            b == lookup(self@.fee_exempt, party, false),
    {
        self.exempt(party)
    }

    /// Whether votes on disputes raised from now on weigh by stake.
    pub fn set_stake_weighted_voting(&mut self, admin: Address, enabled: bool) -> (r: Result<
        (),
        Failure,
    >)
        requires
            old(self)@.wf(),
        ensures
            (final(self)@, r) == old(self)@.set_stake_weighted_voting(admin, enabled),
            final(self)@.wf(),
    {
        if !self.require_admin(admin) {
            return Err(Failure::Refused(Error::NotAuthorized));
        }
        self.stake_weighted_voting = enabled;
        Ok(())
    }

    /// Whether votes on disputes raised now would weigh by stake.
    pub fn get_stake_weighted_voting(&self) -> (b: bool)
        ensures
            b == self@.stake_weighted_voting,
    {
        self.stake_weighted_voting
    }

    /// Update the juror pool requirements. `jury_size` must be odd.
    pub fn set_juror_params(
        &mut self,
        admin: Address,
        min_stake: i128,
        jury_size: u32,
        slash_bps: u32,
        min_reputation: i32,
        arbitration_fee_bps: u32,
    ) -> (r: Result<(), Failure>)
        requires
            old(self)@.wf(),
        ensures
            (final(self)@, r) == old(self)@.set_juror_params(
                admin,
                (JurorParams {
                    min_stake,
                    jury_size,
                    slash_bps,
                    min_reputation,
                    arbitration_fee_bps,
                }),
            ),
            final(self)@.wf(),
    {
        if !self.require_admin(admin) {
            return Err(Failure::Refused(Error::NotAuthorized));
        }
        if min_stake <= 0 {
            return Err(Failure::Refused(Error::InvalidAmount));
        }
        if jury_size % 2 == 0 {
            return Err(Failure::Refused(Error::InvalidJurySize));
        }
        if slash_bps > MAX_SLASH_BPS {
            return Err(Failure::Refused(Error::SlashTooHigh));
        }
        if arbitration_fee_bps > MAX_ARBITRATION_FEE_BPS {
            return Err(Failure::Refused(Error::ArbitrationFeeTooHigh));
        }
        self.juror_params =
        JurorParams { min_stake, jury_size, slash_bps, min_reputation, arbitration_fee_bps };
        Ok(())
    }

    /// The juror requirements.
    pub fn get_juror_params(&self) -> (p: JurorParams)
        ensures
            p == self@.juror_params,
    {
        self.juror_params
    }

    /// Emergency circuit breaker: stops new escrows from being created or
    /// funded. Escrows that are already active go on.
    pub fn set_paused(&mut self, admin: Address, paused: bool) -> (r: Result<(), Failure>)
        requires
            old(self)@.wf(),
        ensures
            (final(self)@, r) == old(self)@.set_paused(admin, paused),
            final(self)@.wf(),
    {
        if !self.require_admin(admin) {
            return Err(Failure::Refused(Error::NotAuthorized));
        }
        self.paused = paused;
        Ok(())
    }

    /// Whether new escrows and deposits are stopped.
    pub fn is_paused(&self) -> (b: bool)
        ensures
            b == self@.paused,
    {
        self.paused
    }
}

} // verus!
