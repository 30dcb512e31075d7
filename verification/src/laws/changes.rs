//! What each call reads and changes of the records, in short.

use crate::laws::calls::{
    signers, AdminCall, Call, DisputeCall, FundsCall, JurorCall, TermsCall,
};
use crate::release::lemma_announce_releases_frame;
use crate::state::State;
use crate::types::{DisputeModel, DisputeOutcome, EscrowModel, EscrowStatus};
use vstd::prelude::*;

verus! {

impl State {
    /// Whether `t` is configured in the same way.
    pub open spec fn same_config(self, t: State) -> bool {
        &&& t.admin == self.admin
        &&& t.pending_admin == self.pending_admin
        &&& t.fee_config == self.fee_config
        &&& t.juror_params == self.juror_params
        &&& t.paused == self.paused
        &&& t.dispute_voting_window == self.dispute_voting_window
        &&& t.stake_weighted_voting == self.stake_weighted_voting
        &&& t.fee_exempt == self.fee_exempt
    }

    /// Whether `t` has the same juror records.
    pub open spec fn same_jurors(self, t: State) -> bool {
        &&& t.juror_pool == self.juror_pool
        &&& t.juror_stakes == self.juror_stakes
        &&& t.active_disputes == self.active_disputes
    }
}

/// No governance call touches a record or a reputation, asks for a transfer or
/// publishes anything.
#[verifier::spinoff_prover]
pub proof fn lemma_admin_change(s: State, c: AdminCall)
    ensures
        ({
            let (t, f) = s.admin_step(c);
            &&& s.same_records(t)
            &&& t.reputation == s.reputation
            &&& t.effects == s.demand_all(signers(Call::Admin(c))).effects
        }),
{
    reveal(State::admin_step);
    let t = s.admin_step(c).0;
    assert(t.effects =~= s.demand_all(signers(Call::Admin(c))).effects);
}

/// The escrow that `c` is about; a new one is about the next ID.
pub open spec fn terms_target(s: State, c: TermsCall) -> u32 {
    match c {
        TermsCall::CreateEscrow { .. } => s.escrow_count,
        TermsCall::AcceptEscrow { id, .. } => id,
        TermsCall::RejectEscrow { id, .. } => id,
        TermsCall::AddMilestone { id, .. } => id,
        TermsCall::RemoveMilestone { id, .. } => id,
        TermsCall::UpdateMilestone { id, .. } => id,
        TermsCall::CancelEscrow { id, .. } => id,
        TermsCall::ExpireUnfundedEscrow { id, .. } => id,
    }
}

/// Whether `c` calls a proposal off.
pub open spec fn calls_off(c: TermsCall) -> bool {
    c is RejectEscrow || c is CancelEscrow || c is ExpireUnfundedEscrow
}

/// Whether a proposal `e` may become `f`.
pub open spec fn proposal_change(e: EscrowModel, f: EscrowModel, off: bool) -> bool {
    &&& e.status == EscrowStatus::Created
    &&& f == (EscrowModel {
        status: if off {
            EscrowStatus::Cancelled
        } else {
            EscrowStatus::Created
        },
        milestones: f.milestones,
        total_amount: f.total_amount,
        host_accepted: f.host_accepted,
        ..e
    })
}

/// What `c` changes of the contract, whatever it is about.
pub open spec fn terms_change(s: State, c: TermsCall) -> bool {
    let (t, f) = s.terms_step(c);
    let id = terms_target(s, c);
    &&& s.same_config(t)
    &&& s.same_jurors(t)
    &&& t.disputes == s.disputes
    &&& t.reputation == s.reputation
    &&& f is Some ==> s.same_records(t)
    &&& f is None ==> t.escrows == s.escrows.insert(id, t.escrows[id])
    &&& f is None && !(c is CreateEscrow) ==> {
        &&& s.escrows.contains_key(id)
        &&& t.escrow_count == s.escrow_count
        &&& proposal_change(s.escrows[id], t.escrows[id], calls_off(c))
    }
    &&& f is None && c is CreateEscrow ==> t.escrow_count == s.escrow_count + 1
}

#[verifier::spinoff_prover]
proof fn lemma_create_change(s: State, c: TermsCall)
    requires
        c is CreateEscrow,
    ensures
        terms_change(s, c),
{
    reveal(State::terms_step);
}

#[verifier::spinoff_prover]
proof fn lemma_edit_change(s: State, c: TermsCall)
    requires
        c is AddMilestone || c is RemoveMilestone || c is UpdateMilestone,
    ensures
        terms_change(s, c),
{
    reveal(State::terms_step);
}

#[verifier::spinoff_prover]
proof fn lemma_answer_change(s: State, c: TermsCall)
    requires
        c is AcceptEscrow || calls_off(c),
    ensures
        terms_change(s, c),
{
    reveal(State::terms_step);
}

/// What a call on a proposal changes.
pub proof fn lemma_terms_change(s: State, c: TermsCall)
    ensures
        terms_change(s, c),
{
    if c is CreateEscrow {
        lemma_create_change(s, c);
    } else if c is AcceptEscrow || calls_off(c) {
        lemma_answer_change(s, c);
    } else {
        lemma_edit_change(s, c);
    }
}

/// The escrow that `c` is about.
pub open spec fn funds_target(c: FundsCall) -> u32 {
    match c {
        FundsCall::Deposit { id, .. } => id,
        FundsCall::MutualCancel { id, .. } => id,
        FundsCall::ConfirmMilestone { id, .. } => id,
        FundsCall::ConfirmAllMilestones { id, .. } => id,
        FundsCall::CheckAutoRelease { id, .. } => id,
        FundsCall::ExtendMilestoneDeadline { id, .. } => id,
    }
}

/// What `c` takes of escrow `e` to go through.
pub open spec fn funds_allowed(e: EscrowModel, c: FundsCall) -> bool {
    match c {
        FundsCall::Deposit { renter, .. } => {
            &&& e.renter == renter
            &&& e.status == EscrowStatus::Created
            &&& e.host_accepted
        },
        FundsCall::MutualCancel { renter, host, .. } => {
            &&& e.renter == renter
            &&& e.host == host
            &&& e.status == EscrowStatus::Active
        },
        FundsCall::ConfirmMilestone { renter, i, .. } => {
            &&& e.renter == renter
            &&& e.status == EscrowStatus::Active
            &&& i < e.milestones.len()
            &&& !e.milestones[i as int].released
        },
        FundsCall::ConfirmAllMilestones { renter, .. } => {
            &&& e.renter == renter
            &&& e.all_released() || e.status == EscrowStatus::Active
        },
        FundsCall::CheckAutoRelease { i, now, .. } => {
            &&& e.status == EscrowStatus::Active
            &&& i < e.milestones.len()
            &&& !e.milestones[i as int].released
            &&& e.milestones[i as int].auto_release_at <= now
        },
        FundsCall::ExtendMilestoneDeadline { renter, i, extra, .. } => {
            &&& e.renter == renter
            &&& e.status == EscrowStatus::Active
            &&& i < e.milestones.len()
            &&& !e.milestones[i as int].released
            &&& e.milestones[i as int].auto_release_at + extra <= u64::MAX
        },
    }
}

/// What becomes of escrow `e` where `c` goes through.
pub open spec fn funds_change(e: EscrowModel, c: FundsCall) -> EscrowModel {
    match c {
        FundsCall::Deposit { now, .. } => e.fund(now),
        FundsCall::MutualCancel { .. } => e.unwind(),
        FundsCall::ConfirmMilestone { i, now, .. } => e.release(i as int, now),
        FundsCall::ConfirmAllMilestones { now, .. } => if e.all_released() {
            e
        } else {
            e.release_all(now)
        },
        FundsCall::CheckAutoRelease { i, now, .. } => e.release(i as int, now),
        FundsCall::ExtendMilestoneDeadline { i, extra, .. } => e.with_deadline(
            i as int,
            (e.milestones[i as int].auto_release_at + extra) as u64,
        ),
    }
}

/// What a call that funds or releases changes, and what it takes to go through.
#[verifier::spinoff_prover]
pub proof fn lemma_funds_change(s: State, c: FundsCall)
    ensures
        ({
            let (t, f) = s.funds_step(c);
            let id = funds_target(c);
            &&& s.same_config(t)
            &&& s.same_jurors(t)
            &&& t.escrow_count == s.escrow_count
            &&& t.party_escrows == s.party_escrows
            &&& t.disputes == s.disputes
            &&& f is Some ==> s.same_records(t) && t.reputation == s.reputation
            &&& f is None ==> {
                &&& s.escrows.contains_key(id)
                &&& funds_allowed(s.escrows[id], c)
                &&& t.escrows == s.escrows.insert(id, funds_change(s.escrows[id], c))
            }
        }),
{
    reveal(State::funds_step);
    let t = s.funds_step(c).0;
    if let FundsCall::ConfirmAllMilestones { renter, id, now } = c {
        let d = s.demand(renter);
        let e = s.escrows[id];
        lemma_announce_releases_frame(d, d, e, e.milestones.len());
        if s.escrows.contains_key(id) && e.all_released() {
            assert(t.escrows =~= s.escrows.insert(id, e));
        }
    }
}

/// The dispute that `c` is about.
pub open spec fn dispute_target(c: DisputeCall) -> (u32, u32) {
    match c {
        DisputeCall::RaiseDispute { id, i, .. } => (id, i),
        DisputeCall::AddDisputeEvidence { id, i, .. } => (id, i),
        DisputeCall::ExtendDisputeDeadline { id, i, .. } => (id, i),
        DisputeCall::VoteDispute { id, i, .. } => (id, i),
        DisputeCall::ResolveDispute { id, i, .. } => (id, i),
        DisputeCall::ForceResolveStaleDispute { id, i, .. } => (id, i),
    }
}

/// Whether `c` settles a dispute.
pub open spec fn closes(c: DisputeCall) -> bool {
    c is ResolveDispute || c is ForceResolveStaleDispute
}

/// Whether the open dispute `d` may become `f` through `c`.
pub open spec fn dispute_change(d: DisputeModel, f: DisputeModel, c: DisputeCall) -> bool {
    &&& !d.resolved
    &&& match c {
        DisputeCall::RaiseDispute { .. } => false,
        DisputeCall::AddDisputeEvidence { evidence, .. } => f == (DisputeModel {
            additional_evidence: d.additional_evidence.push(evidence),
            ..d
        }),
        DisputeCall::ExtendDisputeDeadline { extra, .. } => {
            &&& d.voting_deadline + extra <= u64::MAX
            &&& f == (DisputeModel { voting_deadline: (d.voting_deadline + extra) as u64, ..d })
        },
        DisputeCall::VoteDispute { juror, vote_for_renter, .. } => {
            &&& d.jurors.contains(juror)
            &&& !d.has_voted(juror)
            &&& f == d.with_vote(juror, vote_for_renter)
        },
        DisputeCall::ResolveDispute { now, .. } => {
            &&& d.all_voted()
            &&& f.outcome == DisputeOutcome::RenterWins || f.outcome == DisputeOutcome::HostWins
            &&& f == d.closed(f.outcome, now)
        },
        DisputeCall::ForceResolveStaleDispute { now, .. } => {
            &&& d.voting_deadline <= now
            &&& !d.all_voted()
            &&& f == d.closed(DisputeOutcome::Split, now)
        },
    }
}

/// What a call on a dispute changes, and what it takes to go through.
#[verifier::spinoff_prover]
pub proof fn lemma_dispute_change(s: State, c: DisputeCall)
    ensures
        ({
            let (t, f) = s.dispute_step(c);
            let k = dispute_target(c);
            let e = s.escrows[k.0];
            &&& s.same_config(t)
            &&& t.juror_pool == s.juror_pool
            &&& t.escrow_count == s.escrow_count
            &&& t.party_escrows == s.party_escrows
            &&& !(c is ResolveDispute) ==> t.juror_stakes == s.juror_stakes && t.reputation
                == s.reputation
            &&& f is Some ==> s.same_records(t) && t.reputation == s.reputation
            &&& f is None ==> {
                &&& t.disputes == s.disputes.insert(k, t.disputes[k])
                &&& !(c is RaiseDispute) ==> {
                    &&& s.disputes.contains_key(k)
                    &&& dispute_change(s.disputes[k], t.disputes[k], c)
                }
                &&& c is RaiseDispute ==> {
                    &&& s.escrows.contains_key(k.0)
                    &&& e.status == EscrowStatus::Active
                    &&& k.1 < e.milestones.len()
                    &&& !e.milestones[k.1 as int].released
                    &&& t.escrows == s.escrows.insert(k.0, e.frozen(k.1))
                }
                &&& closes(c) ==> {
                    &&& s.escrows.contains_key(k.0)
                    &&& k.1 < e.milestones.len()
                    &&& exists|at: u64|
                        t.escrows == s.escrows.insert(k.0, #[trigger] e.settle(k.1 as int, at))
                }
                &&& !closes(c) && !(c is RaiseDispute) ==> t.escrows == s.escrows
            }
        }),
{
    reveal(State::dispute_step);
    let t = s.dispute_step(c).0;
    let k = dispute_target(c);
    let e = s.escrows[k.0];
    if s.dispute_step(c).1 is None {
        if let DisputeCall::ResolveDispute { id, i, now } = c {
            let at: u64 = if s.renter_wins(s.disputes[k]) {
                0
            } else {
                now
            };
            assert(t.escrows == s.escrows.insert(k.0, e.settle(k.1 as int, at)));
        }
        if let DisputeCall::ForceResolveStaleDispute { id, i, now } = c {
            assert(t.escrows == s.escrows.insert(k.0, e.settle(k.1 as int, now)));
        }
    }
}

/// What a call on juror stakes leaves alone.
#[verifier::spinoff_prover]
pub proof fn lemma_juror_change(s: State, c: JurorCall)
    ensures
        ({
            let t = s.juror_step(c).0;
            &&& s.same_config(t)
            &&& t.escrow_count == s.escrow_count
            &&& t.escrows == s.escrows
            &&& t.disputes == s.disputes
            &&& t.party_escrows == s.party_escrows
            &&& t.active_disputes == s.active_disputes
            &&& t.reputation == s.reputation
        }),
{
    reveal(State::juror_step);
}

} // verus!
