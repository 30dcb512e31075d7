//! Fees, splits, slashes and reputation.

use crate::incentives::{incentives_fit, lemma_reward_bounds, redistributed, stakes_positive};
use crate::laws::calls::Call;
use crate::laws::changes::{
    lemma_admin_change, lemma_dispute_change, lemma_funds_change, lemma_juror_change,
    lemma_terms_change,
};
use crate::params::{
    CLEAN_COMPLETION_REPUTATION, DISPUTE_LOSS_REPUTATION, DISPUTE_WIN_REPUTATION, MAX_SLASH_BPS,
};
use crate::payout::{lemma_bps_bounds, lemma_bps_half};
use crate::release::lemma_release_completes;
use crate::state::{lookup, State};
use crate::types::{Address, DisputeModel, EscrowStatus, JurorStakeInfo};
use vstd::prelude::*;

verus! {

/// The protocol fee never exceeds a fifth of a payout, and is nothing for an
/// exempt recipient or where no fee is configured.
pub proof fn law_protocol_fee(s: State, recipient: Address, amount: int)
    requires
        s.wf(),
        amount >= 0,
    ensures
        0 <= s.fee_on(recipient, amount),
        5 * s.fee_on(recipient, amount) <= amount,
        s.fee_config is None || lookup(s.fee_exempt, recipient, false) ==> s.fee_on(
            recipient,
            amount,
        ) == 0,
{
    let bps = s.fee_rate(recipient) as int;
    lemma_bps_bounds(amount, bps);
    assert(5 * (amount * bps / 10_000) <= amount) by (nonlinear_arith)
        requires
            amount >= 0,
            0 <= bps <= 2_000,
    ;
    if bps == 0 {
        assert(amount * bps / 10_000 == 0) by (nonlinear_arith)
            requires
                bps == 0,
        ;
    }
}

/// The arbitration fee never exceeds a tenth of the disputed amount, and the
/// jurors' even shares never exceed the fee.
pub proof fn law_arbitration_fee(d: DisputeModel, amount: int)
    requires
        d.wf(),
        amount >= 0,
    ensures
        0 <= d.arbitration_fee(amount),
        10 * d.arbitration_fee(amount) <= amount,
        0 <= d.juror_share(amount),
        d.juror_share(amount) * d.jurors.len() <= d.arbitration_fee(amount),
        d.arbitration_fee(amount) - d.juror_share(amount) * d.jurors.len() < d.jurors.len(),
{
    let bps = d.arbitration_fee_bps as int;
    let n = d.jurors.len() as int;
    let fee = d.arbitration_fee(amount);
    let share = d.juror_share(amount);
    lemma_bps_bounds(amount, bps);
    assert(10 * (amount * bps / 10_000) <= amount) by (nonlinear_arith)
        requires
            amount >= 0,
            0 <= bps <= 1_000,
    ;
    assert(0 <= share && share * n <= fee && fee - share * n < n) by (nonlinear_arith)
        requires
            share == fee / n,
            n > 0,
            fee >= 0,
    ;
}

/// Slashing leaves a losing juror at least half of the stake, takes nothing
/// from anyone else, and gives nothing to anyone but the winners; nobody's
/// stake changes its asset, and nobody gains or loses a place among the staked.
pub proof fn law_slashing(
    stakes: Map<Address, JurorStakeInfo>,
    winners: Seq<Address>,
    losers: Seq<Address>,
    bps: u32,
    a: Address,
)
    requires
        stakes_positive(stakes),
        bps <= MAX_SLASH_BPS,
        incentives_fit(stakes, winners, losers, bps),
    ensures
        ({
            let after = redistributed(stakes, winners, losers, bps);
            &&& after.contains_key(a) <==> stakes.contains_key(a)
            &&& stakes.contains_key(a) ==> {
                &&& after[a].asset == stakes[a].asset
                &&& losers.contains(a) ==> 2 * after[a].amount >= stakes[a].amount
                    && after[a].amount <= stakes[a].amount
                &&& !losers.contains(a) ==> after[a].amount >= stakes[a].amount
                &&& !losers.contains(a) && !winners.contains(a) ==> after[a] == stakes[a]
            }
        }),
{
    if stakes.contains_key(a) {
        let info = stakes[a];
        lemma_bps_half(info.amount as int, bps as int);
        lemma_reward_bounds(stakes, winners, losers, bps, info.asset);
        if winners.contains(a) {
            let i = choose|i: int| 0 <= i < winners.len() && winners[i] == a;
            assert(stakes.contains_key(winners[i]));
        }
    }
}

/// A split after a stale vote pays both parties half of the disputed amount, up
/// to one unit, and together all of it. It is nobody's fault: it moves neither
/// a reputation nor a stake.
pub proof fn law_even_split(s: State, id: u32, i: u32, now: u64)
    requires
        s.wf(),
        s.force_resolve_stale_dispute(id, i, now).1 is Ok,
    ensures
        ({
            let e = s.escrows[id];
            let amount = e.milestones[i as int].amount as int;
            let renter_half = amount / 2;
            let host_half = amount - amount / 2;
            let t = s.force_resolve_stale_dispute(id, i, now).0;
            &&& renter_half + host_half == amount
            &&& 0 <= host_half - renter_half <= 1
            &&& s.pay_out(e.asset, e.renter, renter_half).pay_out(
                e.asset,
                e.host,
                host_half,
            ).effects.is_prefix_of(t.effects)
            &&& t.reputation == s.reputation
            &&& t.juror_stakes == s.juror_stakes
        }),
{
    let e = s.escrows[id];
    let amount = e.milestones[i as int].amount as int;
    let t = s.force_resolve_stale_dispute(id, i, now).0;
    let paid = s.pay_out(e.asset, e.renter, amount / 2).pay_out(
        e.asset,
        e.host,
        amount - amount / 2,
    ).effects;
    assert(paid =~= t.effects.subrange(0, paid.len() as int));
}

/// A resolution by vote moves the winning party's reputation up, the losing
/// party's down, and nobody else's.
pub proof fn law_verdict_moves_reputation(s: State, id: u32, i: u32, now: u64, a: Address)
    requires
        s.wf(),
        s.resolve_dispute(id, i, now).1 is Ok,
    ensures
        ({
            let e = s.escrows[id];
            let renter_wins = s.renter_wins(s.disputes[(id, i)]);
            let t = s.resolve_dispute(id, i, now).0;
            t.reputation_of(a) - s.reputation_of(a) == if a == e.renter {
                if renter_wins {
                    DISPUTE_WIN_REPUTATION as int
                } else {
                    -DISPUTE_LOSS_REPUTATION as int
                }
            } else if a == e.host {
                if renter_wins {
                    -DISPUTE_LOSS_REPUTATION as int
                } else {
                    DISPUTE_WIN_REPUTATION as int
                }
            } else {
                0
            }
        }),
{
}

/// Whether `call` can move a reputation.
pub open spec fn moves_reputation(call: Call) -> bool {
    ||| call matches Call::Funds(c) && (c is ConfirmMilestone || c is ConfirmAllMilestones
        || c is CheckAutoRelease)
    ||| call matches Call::Dispute(c) && c is ResolveDispute
}

/// Releasing the last milestone of an escrow that was never disputed moves both
/// parties' reputations up, and nobody else's; releasing an earlier one, or the
/// last one of an escrow that was disputed, moves none.
pub proof fn law_clean_completion_moves_reputation(
    s: State,
    id: u32,
    i: u32,
    now: u64,
    a: Address,
)
    requires
        s.wf(),
        s.escrows.contains_key(id),
        s.release_refusal(s.escrows[id], i) is None,
    ensures
        ({
            let e = s.escrows[id];
            let t = s.release(id, i, now);
            t.reputation_of(a) - s.reputation_of(a) == if t.escrows[id].status
                == EscrowStatus::Completed && !e.ever_disputed && e.is_party(a) {
                CLEAN_COMPLETION_REPUTATION as int
            } else {
                0
            }
        }),
{
    lemma_release_completes(s.escrows[id], i as int, now);
}

/// Reputation comes from completed escrows and from verdicts alone.
#[verifier::spinoff_prover]
pub proof fn law_reputation_is_earned(s: State, call: Call)
    requires
        !moves_reputation(call),
    ensures
        s.step(call).0.reputation == s.reputation,
{
    match call {
        Call::Admin(c) => lemma_admin_change(s, c),
        Call::Terms(c) => lemma_terms_change(s, c),
        Call::Funds(c) => {
            lemma_funds_change(s, c);
            reveal(State::funds_step);
        },
        Call::Dispute(c) => lemma_dispute_change(s, c),
        Call::Juror(c) => lemma_juror_change(s, c),
    }
}

} // verus!
