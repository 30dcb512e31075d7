//! What the words of the contract mean: limits, defaults, error numbers, sums,
//! shares and the records' models, each by what it must satisfy.

use crate::errors::{error_code, Error, Failure};
use crate::incentives::sum_over;
use crate::params::{
    default_juror_params, BPS_DENOMINATOR, CLEAN_COMPLETION_REPUTATION,
    DEFAULT_DISPUTE_VOTING_WINDOW, DEFAULT_JUROR_SLASH_BPS, DEFAULT_JURY_SIZE,
    DEFAULT_MIN_JUROR_STAKE, DISPUTE_LOSS_REPUTATION, DISPUTE_WIN_REPUTATION,
    MAX_ADDITIONAL_EVIDENCE, MAX_ARBITRATION_FEE_BPS, MAX_DEADLINE_EXTENSION_SECONDS,
    MAX_DISPUTE_VOTING_WINDOW, MAX_FEE_BPS, MAX_MILESTONES, MAX_SLASH_BPS, MAX_STRING_LENGTH,
    MIN_DISPUTE_VOTING_WINDOW, UNFUNDED_EXPIRY_WINDOW,
};
use crate::payout::bps_of;
use crate::state::{amount_sum, lookup, pending_sum, EscrowContract, State};
use crate::types::{
    Address, Dispute, DisputeModel, Escrow, EscrowModel, JurorParams, Milestone, MilestoneModel,
};
use vstd::prelude::*;

verus! {

/// Whether a call is refused with error `e`.
pub open spec fn refuses<T>(r: Result<T, Failure>, e: Error) -> bool {
    r == Err::<T, Failure>(Failure::Refused(e))
}

/// Whether a call aborts without an error of its own.
pub open spec fn aborts<T>(r: Result<T, Failure>) -> bool {
    r == Err::<T, Failure>(Failure::Aborted)
}

/// The limits, in seconds, basis points, bytes and pieces.
pub proof fn law_limits()
    ensures
        MIN_DISPUTE_VOTING_WINDOW == 3_600,
        MAX_DISPUTE_VOTING_WINDOW == 30 * 86_400,
        MAX_DEADLINE_EXTENSION_SECONDS == 365 * 86_400,
        UNFUNDED_EXPIRY_WINDOW == 30 * 86_400,
        BPS_DENOMINATOR == 10_000,
        MAX_FEE_BPS == 2_000,
        MAX_SLASH_BPS == 5_000,
        MAX_ARBITRATION_FEE_BPS == 1_000,
        MAX_STRING_LENGTH == 512,
        MAX_MILESTONES == 50,
        MAX_ADDITIONAL_EVIDENCE == 10,
        DISPUTE_WIN_REPUTATION == 2,
        DISPUTE_LOSS_REPUTATION == 1,
        CLEAN_COMPLETION_REPUTATION == 1,
        DEFAULT_MIN_JUROR_STAKE == 1_000_000_000,
        DEFAULT_JURY_SIZE == 3,
        DEFAULT_JUROR_SLASH_BPS == 1_000,
        DEFAULT_DISPUTE_VOTING_WINDOW == 3 * 86_400,
{
}

/// The rules until the admin sets others: a stake of 100 whole tokens, a jury
/// of three, a tenth slashed, no reputation gate, no arbitration fee, three
/// days to vote, one vote per juror, no protocol fee, nothing paused.
pub proof fn law_defaults()
    ensures
        default_juror_params() == (JurorParams {
            min_stake: 1_000_000_000,
            jury_size: 3,
            slash_bps: 1_000,
            min_reputation: i32::MIN,
            arbitration_fee_bps: 0,
        }),
        State::empty().juror_params == default_juror_params(),
        State::empty().dispute_voting_window == 259_200,
        !State::empty().stake_weighted_voting,
        !State::empty().paused,
        State::empty().fee_config is None,
        State::empty().admin is None,
        State::empty().pending_admin is None,
        State::empty().escrow_count == 0,
        State::empty().effects.len() == 0,
        State::empty().juror_pool.len() == 0,
        forall|id: u32| !State::empty().escrows.contains_key(id),
        forall|k: (u32, u32)| !State::empty().disputes.contains_key(k),
        forall|a: Address| !State::empty().juror_stakes.contains_key(a),
        forall|a: Address| !State::empty().reputation.contains_key(a),
        forall|a: Address| !State::empty().active_disputes.contains_key(a),
        forall|a: Address| !State::empty().party_escrows.contains_key(a),
        forall|a: Address| !State::empty().fee_exempt.contains_key(a),
{
}

/// The numbers by which callers on the network see the errors.
pub proof fn law_error_numbers()
    ensures
        error_code(Error::AlreadyInitialized) == 1,
        error_code(Error::NoMilestones) == 2,
        error_code(Error::InvalidAmount) == 3,
        error_code(Error::NotAuthorized) == 4,
        error_code(Error::InvalidState) == 5,
        error_code(Error::EscrowNotFound) == 6,
        error_code(Error::InvalidMilestone) == 7,
        error_code(Error::AlreadyReleased) == 8,
        error_code(Error::TooEarly) == 9,
        error_code(Error::EscrowDisputed) == 10,
        error_code(Error::NoDispute) == 11,
        error_code(Error::AlreadyResolved) == 12,
        error_code(Error::NotAJuror) == 13,
        error_code(Error::AlreadyVoted) == 14,
        error_code(Error::VotingIncomplete) == 15,
        error_code(Error::InsufficientStake) == 16,
        error_code(Error::NoJurorsAvailable) == 17,
        error_code(Error::FeeTooHigh) == 18,
        error_code(Error::InvalidJurySize) == 19,
        error_code(Error::AssetMismatch) == 20,
        error_code(Error::JurorHasActiveDispute) == 21,
        error_code(Error::SameParty) == 22,
        error_code(Error::MissingEvidence) == 23,
        error_code(Error::NonChronologicalMilestones) == 24,
        error_code(Error::ContractPaused) == 25,
        error_code(Error::SlashTooHigh) == 26,
        error_code(Error::ReputationTooLow) == 27,
        error_code(Error::HostAcceptancePending) == 28,
        error_code(Error::StringTooLong) == 29,
        error_code(Error::TooManyMilestones) == 30,
        error_code(Error::NotYetExpired) == 31,
        error_code(Error::InvalidVotingWindow) == 32,
        error_code(Error::ArbitrationFeeTooHigh) == 33,
        error_code(Error::TooMuchEvidence) == 34,
{
}

/// What is looked up is what is stored, or the default where nothing is.
pub proof fn law_lookup<K, V>(m: Map<K, V>, k: K, default: V)
    ensures
        m.contains_key(k) ==> lookup(m, k, default) == m[k],
        !m.contains_key(k) ==> lookup(m, k, default) == default,
{
}

/// Nobody has a reputation or an open dispute until one is recorded.
pub proof fn law_counters(s: State, who: Address)
    ensures
        s.reputation_of(who) == (if s.reputation.contains_key(who) {
            s.reputation[who]
        } else {
            0
        }),
        s.active_count(who) == (if s.active_disputes.contains_key(who) {
            s.active_disputes[who]
        } else {
            0
        }),
{
}

/// Each milestone adds its amount to the total, and to what is pending until it
/// is released.
pub proof fn law_sums_of_amounts(ms: Seq<MilestoneModel>, m: MilestoneModel)
    ensures
        amount_sum(Seq::empty()) == 0,
        pending_sum(Seq::empty()) == 0,
        amount_sum(ms.push(m)) == amount_sum(ms) + m.amount,
        !m.released ==> pending_sum(ms.push(m)) == pending_sum(ms) + m.amount,
        m.released ==> pending_sum(ms.push(m)) == pending_sum(ms),
{
    assert(ms.push(m).drop_last() =~= ms);
}

/// Each member of a list adds its value to the sum.
pub proof fn law_sums_over_lists(list: Seq<Address>, f: spec_fn(Address) -> int, a: Address)
    ensures
        sum_over(Seq::empty(), f) == 0,
        sum_over(list.push(a), f) == sum_over(list, f) + f(a),
{
    assert(list.push(a).drop_last() =~= list);
}

/// A share in basis points is the largest whole amount that does not exceed
/// that many ten-thousandths.
pub proof fn law_shares(amount: int, bps: int)
    ensures
        10_000 * bps_of(amount, bps) <= amount * bps < 10_000 * (bps_of(amount, bps) + 1),
{
}

/// What soundness of an escrow asks for.
pub proof fn law_sound_escrow(e: EscrowModel)
    ensures
        e.wf() <==> {
            &&& e.renter != e.host
            &&& 1 <= e.milestones.len() <= 50
            &&& e.total_amount == amount_sum(e.milestones)
            &&& forall|i: int, j: int|
                0 <= i <= j < e.milestones.len() ==> (#[trigger] e.milestones[i]).auto_release_offset
                    <= (#[trigger] e.milestones[j]).auto_release_offset
            &&& forall|i: int|
                0 <= i < e.milestones.len() ==> (#[trigger] e.milestones[i]).amount > 0
                    && e.milestones[i].description.len() <= 512
        },
{
}

/// What soundness of a dispute asks for.
pub proof fn law_sound_dispute(d: DisputeModel)
    ensures
        d.wf() <==> {
            &&& d.jurors.len() >= 1
            &&& d.jurors.no_duplicates()
            &&& d.votes_for_renter.no_duplicates()
            &&& d.votes_for_host.no_duplicates()
            &&& forall|a: Address|
                #![trigger d.votes_for_renter.contains(a)]
                #![trigger d.votes_for_host.contains(a)]
                {
                    &&& d.votes_for_renter.contains(a) ==> d.jurors.contains(a)
                        && !d.votes_for_host.contains(a)
                    &&& d.votes_for_host.contains(a) ==> d.jurors.contains(a)
                        && !d.votes_for_renter.contains(a)
                }
            &&& d.slash_bps <= 5_000
            &&& d.arbitration_fee_bps <= 1_000
            &&& d.additional_evidence.len() <= 10
        },
{
}

/// What soundness of the contract asks for.
pub proof fn law_sound_state(s: State)
    ensures
        s.wf() <==> {
            &&& forall|id: u32| #[trigger]
                s.escrows.contains_key(id) ==> s.escrows[id].wf() && s.escrows[id].id == id
            &&& forall|k: (u32, u32)| #[trigger]
                s.disputes.contains_key(k) ==> s.disputes[k].wf() && s.disputes[k].escrow_id == k.0
                    && s.disputes[k].milestone_index == k.1
            &&& forall|a: Address| #[trigger]
                s.juror_stakes.contains_key(a) ==> s.juror_stakes[a].amount > 0
            &&& s.juror_pool.no_duplicates()
            &&& s.juror_params.min_stake > 0
            &&& s.juror_params.jury_size % 2 == 1
            &&& s.juror_params.slash_bps <= 5_000
            &&& s.juror_params.arbitration_fee_bps <= 1_000
            &&& s.fee_config matches Some(c) ==> c.bps <= 2_000
        },
{
}

/// The model of a milestone holds its fields.
pub proof fn law_milestone_model(m: Milestone)
    ensures
        m@.description == m.description@,
        m@.amount == m.amount,
        m@.auto_release_offset == m.auto_release_offset,
        m@.auto_release_at == m.auto_release_at,
        m@.released == m.released,
        m@.released_at == m.released_at,
{
}

/// The model of an escrow holds its fields, and its milestones in order.
pub proof fn law_escrow_model(e: Escrow)
    ensures
        e@.id == e.id,
        e@.renter == e.renter,
        e@.host == e.host,
        e@.asset == e.asset,
        e@.total_amount == e.total_amount,
        e@.funded_amount == e.funded_amount,
        e@.milestones.len() == e.milestones@.len(),
        forall|i: int| 0 <= i < e.milestones@.len() ==> #[trigger] e@.milestones[i] == e.milestones@[i]@,
        e@.status == e.status,
        e@.dispute_id == e.dispute_id,
        e@.host_accepted == e.host_accepted,
        e@.requires_host_acceptance == e.requires_host_acceptance,
        e@.created_at == e.created_at,
        e@.ever_disputed == e.ever_disputed,
{
}

/// The model of a dispute holds its fields.
pub proof fn law_dispute_model(d: Dispute)
    ensures
        d@.escrow_id == d.escrow_id,
        d@.milestone_index == d.milestone_index,
        d@.opened_by == d.opened_by,
        d@.evidence_uri == d.evidence_uri@,
        d@.jurors == d.jurors@,
        d@.votes_for_renter == d.votes_for_renter@,
        d@.votes_for_host == d.votes_for_host@,
        d@.resolved == d.resolved,
        d@.resolved_at == d.resolved_at,
        d@.outcome == d.outcome,
        d@.voting_deadline == d.voting_deadline,
        d@.additional_evidence.len() == d.additional_evidence@.len(),
        forall|i: int|
            0 <= i < d.additional_evidence@.len() ==> #[trigger] d@.additional_evidence[i]
                == d.additional_evidence@[i]@,
        d@.slash_bps == d.slash_bps,
        d@.arbitration_fee_bps == d.arbitration_fee_bps,
        d@.stake_weighted == d.stake_weighted,
{
}

/// The model of the contract holds its fields, and its records under their own
/// keys.
pub proof fn law_contract_model(c: EscrowContract)
    ensures
        c@.admin == c.admin,
        c@.pending_admin == c.pending_admin,
        c@.escrow_count == c.escrow_count,
        c@.fee_config == c.fee_config,
        c@.juror_params == c.juror_params,
        c@.paused == c.paused,
        c@.dispute_voting_window == c.dispute_voting_window,
        c@.stake_weighted_voting == c.stake_weighted_voting,
        c@.fee_exempt == c.fee_exempt@,
        c@.juror_pool == c.juror_pool@,
        c@.juror_stakes == c.juror_stakes@,
        c@.reputation == c.reputation@,
        c@.active_disputes == c.active_disputes@,
        c@.effects == c.effects@,
        forall|id: u32| #[trigger] c@.escrows.contains_key(id) <==> c.escrows@.contains_key(id),
        forall|id: u32| c.escrows@.contains_key(id) ==> #[trigger] c@.escrows[id] == c.escrows@[id]@,
        forall|k: (u32, u32)| #[trigger]
            c@.disputes.contains_key(k) <==> c.disputes@.contains_key(k),
        forall|k: (u32, u32)|
            c.disputes@.contains_key(k) ==> #[trigger] c@.disputes[k] == c.disputes@[k]@,
        forall|a: Address| #[trigger]
            c@.party_escrows.contains_key(a) <==> c.party_escrows@.contains_key(a),
        forall|a: Address|
            c.party_escrows@.contains_key(a) ==> #[trigger] c@.party_escrows[a]
                == c.party_escrows@[a]@,
{
}

} // verus!
