//! What holds in every state that calls can lead to.

use crate::disputes::lemma_vote_wf;
use crate::incentives::lemma_redistributed_positive;
use crate::jurors::lemma_jury_sound;
use crate::laws::calls::{AdminCall, Call, DisputeCall, FundsCall, JurorCall, TermsCall};
use crate::laws::consistency::{law_consistency_kept, law_empty_consistent};
use crate::laws::solvency::{balance, law_surplus_never_shrinks};
use crate::lifecycle::{
    lemma_amount_sum_bounds, lemma_amount_sum_push, lemma_remove_wf, lemma_terms_accepted,
    lemma_update_wf, new_milestone,
};
use crate::release::{lemma_announce_releases_frame, lemma_same_terms_wf};
use crate::state::State;
use crate::types::Address;
use vstd::prelude::*;

verus! {

#[verifier::spinoff_prover]
proof fn lemma_admin_wf(s: State, c: AdminCall)
    requires
        s.wf(),
    ensures
        s.admin_step(c).0.wf(),
{
    reveal(State::admin_step);
}

#[verifier::spinoff_prover]
proof fn lemma_terms_wf(s: State, c: TermsCall)
    requires
        s.wf(),
    ensures
        s.terms_step(c).0.wf(),
{
    reveal(State::terms_step);
    let t = s.terms_step(c).0;
    if s.terms_step(c).1 is None {
        match c {
            TermsCall::CreateEscrow { renter, host, asset, terms, .. } => {
                lemma_terms_accepted(terms, terms.len());
                assert(terms.take(terms.len() as int) =~= terms);
            },
            TermsCall::AddMilestone { renter, id, description, amount, offset } => {
                let e = s.escrows[id];
                lemma_amount_sum_push(e.milestones, new_milestone(description, amount, offset));
                lemma_amount_sum_bounds(e.milestones, 0);
            },
            TermsCall::RemoveMilestone { renter, id, i } => {
                lemma_remove_wf(s.escrows[id], i as int);
            },
            TermsCall::UpdateMilestone { renter, id, i, description, amount, offset } => {
                let m = new_milestone(description, amount, offset);
                lemma_update_wf(s.escrows[id], i as int, m);
            },
            _ => {},
        }
    }
}

#[verifier::spinoff_prover]
proof fn lemma_funds_wf(s: State, c: FundsCall)
    requires
        s.wf(),
    ensures
        s.funds_step(c).0.wf(),
{
    reveal(State::funds_step);
    let t = s.funds_step(c).0;
    if s.funds_step(c).1 is None {
        let id: u32 = match c {
            FundsCall::Deposit { id, .. } => id,
            FundsCall::MutualCancel { id, .. } => id,
            FundsCall::ConfirmMilestone { id, .. } => id,
            FundsCall::ConfirmAllMilestones { id, .. } => id,
            FundsCall::CheckAutoRelease { id, .. } => id,
            FundsCall::ExtendMilestoneDeadline { id, .. } => id,
        };
        if let FundsCall::ConfirmAllMilestones { renter, id, now } = c {
            let d = s.demand(renter);
            lemma_announce_releases_frame(d, d, s.escrows[id], s.escrows[id].milestones.len());
        }
        lemma_same_terms_wf(s.escrows[id], t.escrows[id]);
    }
}

#[verifier::spinoff_prover]
proof fn lemma_dispute_wf(s: State, c: DisputeCall)
    requires
        s.wf(),
    ensures
        s.dispute_step(c).0.wf(),
{
    reveal(State::dispute_step);
    let t = s.dispute_step(c).0;
    if s.dispute_step(c).1 is None {
        match c {
            DisputeCall::RaiseDispute { caller, id, i, evidence, now } => {
                let e = s.escrows[id];
                lemma_jury_sound(s, id, e.renter, e.host);
                lemma_same_terms_wf(e, t.escrows[id]);
                assert(t.disputes[(id, i)].jurors == s.jury(id, e.renter, e.host));
            },
            DisputeCall::AddDisputeEvidence { caller, id, i, evidence } => {},
            DisputeCall::ExtendDisputeDeadline { renter, host, id, i, extra } => {},
            DisputeCall::VoteDispute { juror, id, i, vote_for_renter } => {
                lemma_vote_wf(s.disputes[(id, i)], juror, vote_for_renter);
            },
            DisputeCall::ResolveDispute { id, i, now } => {
                let d = s.disputes[(id, i)];
                let w = s.renter_wins(d);
                lemma_same_terms_wf(s.escrows[id], t.escrows[id]);
                lemma_redistributed_positive(
                    s.juror_stakes,
                    d.winning_votes(w),
                    d.losing_votes(w),
                    d.slash_bps,
                );
            },
            DisputeCall::ForceResolveStaleDispute { id, i, now } => {
                lemma_same_terms_wf(s.escrows[id], t.escrows[id]);
            },
        }
    }
}

#[verifier::spinoff_prover]
proof fn lemma_juror_wf(s: State, c: JurorCall)
    requires
        s.wf(),
    ensures
        s.juror_step(c).0.wf(),
{
    reveal(State::juror_step);
    if let JurorCall::WithdrawJurorStake { juror } = c {
        if s.juror_pool.contains(juror) {
            let p = s.juror_pool.index_of(juror);
            let rest = s.juror_pool.remove(p);
            assert forall|j: int| 0 <= j < rest.len() implies #[trigger] rest[j]
                == s.juror_pool[if j < p {
                j
            } else {
                j + 1
            }] by {}
            assert(rest.no_duplicates());
        }
    }
}

/// Every call keeps every record sound by itself.
pub proof fn law_wf_kept(s: State, call: Call)
    requires
        s.wf(),
    ensures
        s.step(call).0.wf(),
{
    match call {
        Call::Admin(c) => lemma_admin_wf(s, c),
        Call::Terms(c) => lemma_terms_wf(s, c),
        Call::Funds(c) => lemma_funds_wf(s, c),
        Call::Dispute(c) => lemma_dispute_wf(s, c),
        Call::Juror(c) => lemma_juror_wf(s, c),
    }
}

/// The state after all of `calls`, in order.
pub open spec fn run(s: State, calls: Seq<Call>) -> State
    decreases calls.len(),
{
    if calls.len() == 0 {
        s
    } else {
        run(s, calls.drop_last()).step(calls.last()).0
    }
}

/// In every state that calls can lead to, the records are sound and consistent,
/// and in every asset the contract's balance covers what it owes.
pub proof fn law_reachable_states(calls: Seq<Call>, asset: Address)
    ensures
        ({
            let s = run(State::empty(), calls);
            &&& s.wf()
            &&& s.consistent()
            &&& balance(s.effects, asset) >= s.owed(asset)
        }),
    decreases calls.len(),
{
    if calls.len() == 0 {
        law_empty_consistent();
    } else {
        let s = run(State::empty(), calls.drop_last());
        let call = calls.last();
        law_reachable_states(calls.drop_last(), asset);
        law_wf_kept(s, call);
        law_consistency_kept(s, call);
        law_surplus_never_shrinks(s, call, asset);
    }
}

} // verus!
