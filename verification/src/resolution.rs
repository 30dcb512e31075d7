//! Settling a dispute by vote, or by an even split once its jury is stale.

use crate::errors::{Error, Failure};
use crate::incentives::{incentives_fit, redistributed, stake_of, sum_over};
use crate::jurors::unassigned;
use crate::params::{DISPUTE_LOSS_REPUTATION, DISPUTE_WIN_REPUTATION};
use crate::payout::{bps_fits, bps_of, bps_share};
use crate::release::{is_last_pending, lemma_same_terms_wf, settled};
use crate::state::{refused, EscrowContract, State};
use crate::types::{
    Address, Dispute, DisputeModel, DisputeOutcome, Effect, Escrow, EscrowModel, EscrowStatus,
    Event, JurorStakeInfo,
};
use vstd::prelude::*;

verus! {

/// The weight of `votes`: their number, or what the voters have staked.
pub open spec fn tally(
    stakes: Map<Address, JurorStakeInfo>,
    votes: Seq<Address>,
    stake_weighted: bool,
) -> int {
    if stake_weighted {
        sum_over(votes, stake_of(stakes))
    } else {
        votes.len() as int
    }
}

/// One payment of `share` to each of `jurors`, in order.
pub open spec fn payments(asset: Address, jurors: Seq<Address>, share: int) -> Seq<Effect> {
    Seq::new(
        jurors.len(),
        |k: int| Effect::Pay { asset, to: jurors[k], amount: share as i128 },
    )
}

impl DisputeModel {
    /// The votes of the side that wins, when the renter does or does not.
    pub open spec fn winning_votes(self, renter_wins: bool) -> Seq<Address> {
        if renter_wins {
            self.votes_for_renter
        } else {
            self.votes_for_host
        }
    }

    /// The votes of the side that loses, when the renter wins or does not.
    pub open spec fn losing_votes(self, renter_wins: bool) -> Seq<Address> {
        if renter_wins {
            self.votes_for_host
        } else {
            self.votes_for_renter
        }
    }

    /// Whether there is a vote for every seat on the jury.
    pub open spec fn all_voted(self) -> bool {
        self.votes_for_renter.len() + self.votes_for_host.len() >= self.jurors.len()
    }

    /// The dispute once it is settled.
    pub open spec fn closed(self, outcome: DisputeOutcome, now: u64) -> DisputeModel {
        DisputeModel { resolved: true, resolved_at: now, outcome, ..self }
    }

    /// What the jurors receive together of a disputed `amount`.
    pub open spec fn arbitration_fee(self, amount: int) -> int {
        bps_of(amount, self.arbitration_fee_bps as int)
    }

    /// What each juror receives of a disputed `amount`.
    pub open spec fn juror_share(self, amount: int) -> int {
        self.arbitration_fee(amount) / (self.jurors.len() as int)
    }
}

impl EscrowModel {
    /// The escrow once the dispute on milestone `i` is settled; `at` is when
    /// the host was paid, or 0. The escrow goes on where anything is pending.
    pub open spec fn settle(self, i: int, at: u64) -> EscrowModel {
        EscrowModel {
            milestones: self.milestones.update(i, settled(self.milestones[i], at)),
            status: if self.is_last_pending(i) {
                EscrowStatus::Completed
            } else {
                EscrowStatus::Active
            },
            dispute_id: None,
            ..self
        }
    }
}

impl State {
    /// Whether the votes on `d` go to the renter; the host wins a tie.
    pub open spec fn renter_wins(self, d: DisputeModel) -> bool {
        tally(self.juror_stakes, d.votes_for_renter, d.stake_weighted) > tally(
            self.juror_stakes,
            d.votes_for_host,
            d.stake_weighted,
        )
    }

    /// Whether the weight of every vote on `d` is in range.
    pub open spec fn tallies_fit(self, d: DisputeModel) -> bool {
        d.stake_weighted ==> {
            &&& sum_over(d.votes_for_renter, stake_of(self.juror_stakes)) <= i128::MAX
            &&& sum_over(d.votes_for_host, stake_of(self.juror_stakes)) <= i128::MAX
        }
    }

    /// Whether all amounts on the way to settling `d` on escrow `e` by vote are
    /// in range.
    pub open spec fn settlement_fits(self, d: DisputeModel, e: EscrowModel) -> bool {
        let amount = e.milestones[d.milestone_index as int].amount as int;
        let renter_wins = self.renter_wins(d);
        let (winner, loser) = if renter_wins {
            (e.renter, e.host)
        } else {
            (e.host, e.renter)
        };
        &&& self.tallies_fit(d)
        &&& bps_fits(amount, d.arbitration_fee_bps as int)
        &&& self.payout_fits(winner, amount - d.arbitration_fee(amount))
        &&& self.reputation_fits(winner, DISPUTE_WIN_REPUTATION as int)
        &&& self.reputation_fits(loser, -DISPUTE_LOSS_REPUTATION as int)
        &&& incentives_fit(
            self.juror_stakes,
            d.winning_votes(renter_wins),
            d.losing_votes(renter_wins),
            d.slash_bps,
        )
    }

    /// Why the dispute on milestone `i` of escrow `id` cannot be settled by
    /// vote.
    pub open spec fn resolve_refusal(self, id: u32, i: u32) -> Option<Failure> {
        if !self.disputes.contains_key((id, i)) {
            refused(Error::NoDispute)
        } else {
            let d = self.disputes[(id, i)];
            if d.resolved {
                refused(Error::AlreadyResolved)
            } else if !d.all_voted() {
                refused(Error::VotingIncomplete)
            } else if !self.escrows.contains_key(id) {
                refused(Error::EscrowNotFound)
            } else if i >= self.escrows[id].milestones.len() {
                Some(Failure::Aborted)
            } else if !self.settlement_fits(d, self.escrows[id]) {
                Some(Failure::Aborted)
            } else {
                None
            }
        }
    }

    /// The state once each of `jurors` is paid `share`.
    pub open spec fn pay_jurors(self, asset: Address, jurors: Seq<Address>, share: int) -> State {
        if share > 0 {
            State { effects: self.effects + payments(asset, jurors, share), ..self }
        } else {
            self
        }
    }

    /// The state once the records of a settled dispute are closed: the jurors
    /// are free, the dispute and its milestone are done.
    pub open spec fn close_dispute(
        self,
        id: u32,
        i: u32,
        outcome: DisputeOutcome,
        paid_host_at: u64,
        now: u64,
    ) -> State {
        let d = self.disputes[(id, i)];
        State {
            active_disputes: unassigned(self.active_disputes, d.jurors),
            disputes: self.disputes.insert((id, i), d.closed(outcome, now)),
            escrows: self.escrows.insert(id, self.escrows[id].settle(i as int, paid_host_at)),
            ..self
        }
    }

    /// The state once `event` is published, and the completion of escrow `id`
    /// after it where nothing is pending any more.
    pub open spec fn announce_settlement(self, id: u32, event: Event) -> State {
        let s = self.publish(event);
        if self.escrows[id].status == EscrowStatus::Completed {
            s.publish(Event::Complete { id })
        } else {
            s
        }
    }

    /// The votes are counted once every juror has voted. The winning party
    /// receives the disputed amount less the arbitration fee, which the jurors
    /// share; reputation moves with the outcome; losing jurors are slashed in
    /// favour of winning ones.
    pub open spec fn resolve_dispute(self, id: u32, i: u32, now: u64) -> (
        State,
        Result<(), Failure>,
    ) {
        match self.resolve_refusal(id, i) {
            Some(f) => (self, Err(f)),
            None => {
                let d = self.disputes[(id, i)];
                let e = self.escrows[id];
                let amount = e.milestones[i as int].amount as int;
                let renter_wins = self.renter_wins(d);
                let (winner, loser) = if renter_wins {
                    (e.renter, e.host)
                } else {
                    (e.host, e.renter)
                };
                let paid = self.pay_jurors(e.asset, d.jurors, d.juror_share(amount)).pay_out(
                    e.asset,
                    winner,
                    amount - d.arbitration_fee(amount),
                ).adjust_reputation(winner, DISPUTE_WIN_REPUTATION as int).adjust_reputation(
                    loser,
                    -DISPUTE_LOSS_REPUTATION as int,
                );
                let rewarded = State {
                    juror_stakes: redistributed(
                        self.juror_stakes,
                        d.winning_votes(renter_wins),
                        d.losing_votes(renter_wins),
                        d.slash_bps,
                    ),
                    ..paid
                };
                (
                    rewarded.close_dispute(
                        id,
                        i,
                        if renter_wins {
                            DisputeOutcome::RenterWins
                        } else {
                            DisputeOutcome::HostWins
                        },
                        if renter_wins {
                            0
                        } else {
                            now
                        },
                        now,
                    ).announce_settlement(
                        id,
                        Event::Resolved { id, milestone_index: i, recipient: winner },
                    ),
                    Ok(()),
                )
            },
        }
    }

    /// Why the dispute on milestone `i` of escrow `id` cannot be split at time
    /// `now`.
    pub open spec fn force_refusal(self, id: u32, i: u32, now: u64) -> Option<Failure> {
        if !self.disputes.contains_key((id, i)) {
            refused(Error::NoDispute)
        } else {
            let d = self.disputes[(id, i)];
            if d.resolved {
                refused(Error::AlreadyResolved)
            } else if now < d.voting_deadline {
                refused(Error::TooEarly)
            } else if d.all_voted() {
                refused(Error::InvalidState)
            } else if !self.escrows.contains_key(id) {
                refused(Error::EscrowNotFound)
            } else if i >= self.escrows[id].milestones.len() {
                Some(Failure::Aborted)
            } else {
                let e = self.escrows[id];
                let amount = e.milestones[i as int].amount as int;
                if !self.payout_fits(e.renter, amount / 2) || !self.payout_fits(
                    e.host,
                    amount - amount / 2,
                ) {
                    Some(Failure::Aborted)
                } else {
                    None
                }
            }
        }
    }

    /// Anyone splits the disputed amount evenly once the voting deadline has
    /// passed with votes still missing; an odd unit goes to the host. Neither
    /// reputation nor stakes move. Where every juror has voted, the verdict
    /// stands and only `resolve_dispute` settles the dispute.
    pub open spec fn force_resolve_stale_dispute(self, id: u32, i: u32, now: u64) -> (
        State,
        Result<(), Failure>,
    ) {
        match self.force_refusal(id, i, now) {
            Some(f) => (self, Err(f)),
            None => {
                let e = self.escrows[id];
                let amount = e.milestones[i as int].amount as int;
                (
                    self.pay_out(e.asset, e.renter, amount / 2).pay_out(
                        e.asset,
                        e.host,
                        amount - amount / 2,
                    ).close_dispute(
                        id,
                        i,
                        DisputeOutcome::Split,
                        now,
                        now,
                    ).announce_settlement(id, Event::Stale { id, milestone_index: i }),
                    Ok(()),
                )
            },
        }
    }
}

/// Whether there is a vote for every seat on the jury of `d`.
fn all_voted(d: &Dispute) -> (b: bool)
    ensures
        b == d@.all_voted(),
{
    d.votes_for_renter.len() as u128 + d.votes_for_host.len() as u128 >= d.jurors.len() as u128
}

impl EscrowContract {
    /// Whether the votes on `d` go to the renter, unless a weight is out of
    /// range.
    fn count_votes(&self, d: &Dispute) -> (r: Option<bool>)
        requires
            self@.wf(),
        ensures
            match r {
                Some(b) => self@.tallies_fit(d@) && b == self@.renter_wins(d@),
                None => !self@.tallies_fit(d@),
            },
    {
        if !d.stake_weighted {
            return Some(d.votes_for_renter.len() > d.votes_for_host.len());
        }
        match (self.stake_total(&d.votes_for_renter), self.stake_total(&d.votes_for_host)) {
            (Some(for_renter), Some(for_host)) => Some(for_renter > for_host),
            _ => None,
        }
    }

    fn pay_jurors(&mut self, asset: Address, jurors: &Vec<Address>, share: i128)
        ensures
            final(self)@ == old(self)@.pay_jurors(asset, jurors@, share as int),
    {
        let ghost s0 = self@;
        if share > 0 {
            let mut i: usize = 0;
            while i < jurors.len()
                invariant
                    share > 0,
                    i <= jurors.len(),
                    self@ == s0.pay_jurors(asset, jurors@.take(i as int), share as int),
                decreases jurors.len() - i,
            {
                let ghost after = jurors@.take(i + 1);
                self.emit(Effect::Pay { asset, to: jurors[i], amount: share });
                assert(self@.effects =~= s0.effects + payments(asset, after, share as int));
                i += 1;
            }
            assert(jurors@.take(i as int) =~= jurors@);
        }
        assert(self@ =~= s0.pay_jurors(asset, jurors@, share as int));
    }

    /// Closes the records of a settled dispute.
    fn close_dispute(
        &mut self,
        id: u32,
        i: u32,
        outcome: DisputeOutcome,
        paid_host_at: u64,
        now: u64,
        event: Event,
    )
        requires
            old(self)@.wf(),
            old(self)@.disputes.contains_key((id, i)),
            old(self)@.escrows.contains_key(id),
            i < old(self)@.escrows[id].milestones.len(),
        ensures
            final(self)@ == old(self)@.close_dispute(
                id,
                i,
                outcome,
                paid_host_at,
                now,
            ).announce_settlement(id, event),
            final(self)@.wf(),
    {
        let ghost s0 = self@;
        let ghost d0 = s0.disputes[(id, i)];
        let ghost e0 = s0.escrows[id];
        let mut d = self.take_dispute((id, i));
        d.resolved = true;
        d.resolved_at = now;
        d.outcome = outcome;
        assert(d@ =~= d0.closed(outcome, now));
        self.dec_active_dispute_counts(&d.jurors);
        self.put_dispute((id, i), d);
        assert(self@.disputes =~= s0.disputes.insert((id, i), d0.closed(outcome, now)));

        let mut e = self.take_escrow(id);
        let k: usize = i as usize;
        let last: bool = is_last_pending(&e, k);
        e.milestones[k].released = true;
        e.milestones[k].released_at = paid_host_at;
        e.status = if last {
            EscrowStatus::Completed
        } else {
            EscrowStatus::Active
        };
        e.dispute_id = None;
        assert(e@ =~= e0.settle(i as int, paid_host_at));
        proof {
            lemma_same_terms_wf(e0, e@);
        }
        self.put_escrow(id, e);
        assert(self@.escrows =~= s0.escrows.insert(id, e0.settle(i as int, paid_host_at)));
        self.publish(event);
        if last {
            self.publish(Event::Complete { id });
        }
    }

    /// Tally votes once all jurors have voted (see
    /// `force_resolve_stale_dispute` for the case where they do not).
    /// Distributes the disputed milestone amount to the winning side, updates
    /// reputation for both parties, and slashes and rewards jurors.
    pub fn resolve_dispute(&mut self, escrow_id: u32, milestone_index: u32, now: u64) -> (r: Result<
        (),
        Failure,
    >)
        requires
            old(self)@.wf(),
        ensures
            (final(self)@, r) == old(self)@.resolve_dispute(escrow_id, milestone_index, now),
            final(self)@.wf(),
    {
        let ghost s0 = self@;
        let key: (u32, u32) = (escrow_id, milestone_index);
        let k: usize = milestone_index as usize;
        let renter_wins: bool;
        let amount: i128;
        let arbitration_fee: i128;
        let asset: Address;
        let winner: Address;
        let loser: Address;
        match self.find_dispute(key) {
            Some(d) => {
                if d.resolved {
                    return Err(Failure::Refused(Error::AlreadyResolved));
                }
                if !all_voted(d) {
                    return Err(Failure::Refused(Error::VotingIncomplete));
                }
                let e: &Escrow = match self.find_escrow(escrow_id) {
                    Some(e) => e,
                    None => {
                        return Err(Failure::Refused(Error::EscrowNotFound));
                    },
                };
                if k >= e.milestones.len() {
                    return Err(Failure::Aborted);
                }
                assert(e@.milestones[k as int] == e.milestones[k as int]@);
                renter_wins = match self.count_votes(d) {
                    Some(b) => b,
                    None => {
                        return Err(Failure::Aborted);
                    },
                };
                amount = e.milestones[k].amount;
                asset = e.asset;
                winner = if renter_wins {
                    e.renter
                } else {
                    e.host
                };
                loser = if renter_wins {
                    e.host
                } else {
                    e.renter
                };
                arbitration_fee = match bps_share(amount, d.arbitration_fee_bps) {
                    Some(fee) => fee,
                    None => {
                        return Err(Failure::Aborted);
                    },
                };
                if self.fee_split(winner, amount - arbitration_fee).is_none() {
                    return Err(Failure::Aborted);
                }
                if !self.reputation_can_move(winner, DISPUTE_WIN_REPUTATION)
                    || !self.reputation_can_move(loser, -DISPUTE_LOSS_REPUTATION) {
                    return Err(Failure::Aborted);
                }
                let fit: bool = if renter_wins {
                    self.incentives_fit(&d.votes_for_renter, &d.votes_for_host, d.slash_bps)
                } else {
                    self.incentives_fit(&d.votes_for_host, &d.votes_for_renter, d.slash_bps)
                };
                if !fit {
                    return Err(Failure::Aborted);
                }
            },
            None => {
                return Err(Failure::Refused(Error::NoDispute));
            },
        }
        assert(s0.resolve_refusal(escrow_id, milestone_index) is None);

        let d = self.take_dispute(key);
        self.pay_jurors(asset, &d.jurors, arbitration_fee / d.jurors.len() as i128);
        self.pay_out(asset, winner, amount - arbitration_fee);
        self.adjust_reputation(winner, DISPUTE_WIN_REPUTATION);
        self.adjust_reputation(loser, -DISPUTE_LOSS_REPUTATION);
        if renter_wins {
            self.apply_juror_incentives(&d.votes_for_renter, &d.votes_for_host, d.slash_bps);
        } else {
            self.apply_juror_incentives(&d.votes_for_host, &d.votes_for_renter, d.slash_bps);
        }
        self.put_dispute(key, d);
        assert(self@.disputes =~= s0.disputes);
        let outcome: DisputeOutcome = if renter_wins {
            DisputeOutcome::RenterWins
        } else {
            DisputeOutcome::HostWins
        };
        let paid_host_at: u64 = if renter_wins {
            0
        } else {
            now
        };
        self.close_dispute(
            escrow_id,
            milestone_index,
            outcome,
            paid_host_at,
            now,
            Event::Resolved { id: escrow_id, milestone_index, recipient: winner },
        );
        assert(self@ =~= s0.resolve_dispute(escrow_id, milestone_index, now).0);
        Ok(())
    }

    /// Anyone can call this once `voting_deadline` has passed if jurors still
    /// have not cast enough votes for `resolve_dispute` to settle the dispute.
    /// Splits the disputed milestone amount evenly between renter and host
    /// instead of leaving it frozen indefinitely. A dispute on which every juror
    /// has voted is refused with `InvalidState`.
    pub fn force_resolve_stale_dispute(
        &mut self,
        escrow_id: u32,
        milestone_index: u32,
        now: u64,
    ) -> (r: Result<(), Failure>)
        requires
            old(self)@.wf(),
        ensures
            (final(self)@, r) == old(self)@.force_resolve_stale_dispute(
                escrow_id,
                milestone_index,
                now,
            ),
            final(self)@.wf(),
    {
        let key: (u32, u32) = (escrow_id, milestone_index);
        let k: usize = milestone_index as usize;
        match self.find_dispute(key) {
            Some(d) => {
                if d.resolved {
                    return Err(Failure::Refused(Error::AlreadyResolved));
                }
                if now < d.voting_deadline {
                    return Err(Failure::Refused(Error::TooEarly));
                }
                if all_voted(d) {
                    return Err(Failure::Refused(Error::InvalidState));
                }
            },
            None => {
                return Err(Failure::Refused(Error::NoDispute));
            },
        }
        let amount: i128;
        let asset: Address;
        let renter: Address;
        let host: Address;
        match self.find_escrow(escrow_id) {
            Some(e) => {
                if k >= e.milestones.len() {
                    return Err(Failure::Aborted);
                }
                assert(e@.milestones[k as int] == e.milestones[k as int]@);
                amount = e.milestones[k].amount;
                asset = e.asset;
                renter = e.renter;
                host = e.host;
            },
            None => {
                return Err(Failure::Refused(Error::EscrowNotFound));
            },
        }
        let renter_share: i128 = amount / 2;
        let host_share: i128 = amount - renter_share;
        if self.fee_split(renter, renter_share).is_none() || self.fee_split(
            host,
            host_share,
        ).is_none() {
            return Err(Failure::Aborted);
        }
        self.pay_out(asset, renter, renter_share);
        self.pay_out(asset, host, host_share);
        self.close_dispute(
            escrow_id,
            milestone_index,
            DisputeOutcome::Split,
            now,
            now,
            Event::Stale { id: escrow_id, milestone_index },
        );
        Ok(())
    }
}

} // verus!
