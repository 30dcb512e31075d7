//! What an escrow and a dispute can become, and through which calls.

use crate::errors::{Error, Failure};
use crate::jurors::lemma_push_contains;
use crate::laws::calls::{Call, DisputeCall, FundsCall, TermsCall};
use crate::laws::changes::{
    dispute_target, lemma_admin_change, lemma_dispute_change, lemma_funds_change,
    lemma_juror_change, lemma_terms_change,
};
use crate::state::State;
use crate::types::{Address, DisputeModel, EscrowModel, EscrowStatus};
use vstd::prelude::*;

verus! {

/// Whether `call` is one of those that take escrow `id` from one status to
/// another:
///
/// - a proposal is funded by a deposit, or called off, declined or expired;
/// - an escrow under way is disputed, completed by its last release, or unwound
///   by both parties;
/// - a disputed escrow goes on or is completed by the settlement of its
///   dispute.
pub open spec fn moves(call: Call, id: u32, from: EscrowStatus, to: EscrowStatus) -> bool {
    match (from, to) {
        (EscrowStatus::Created, EscrowStatus::Active) => match call {
            Call::Funds(FundsCall::Deposit { id: x, .. }) => x == id,
            _ => false,
        },
        (EscrowStatus::Created, EscrowStatus::Cancelled) => match call {
            Call::Terms(TermsCall::CancelEscrow { id: x, .. }) => x == id,
            Call::Terms(TermsCall::RejectEscrow { id: x, .. }) => x == id,
            Call::Terms(TermsCall::ExpireUnfundedEscrow { id: x, .. }) => x == id,
            _ => false,
        },
        (EscrowStatus::Active, EscrowStatus::Disputed) => match call {
            Call::Dispute(DisputeCall::RaiseDispute { id: x, .. }) => x == id,
            _ => false,
        },
        (EscrowStatus::Active, EscrowStatus::Completed) => match call {
            Call::Funds(FundsCall::ConfirmMilestone { id: x, .. }) => x == id,
            Call::Funds(FundsCall::ConfirmAllMilestones { id: x, .. }) => x == id,
            Call::Funds(FundsCall::CheckAutoRelease { id: x, .. }) => x == id,
            _ => false,
        },
        (EscrowStatus::Active, EscrowStatus::Cancelled) => match call {
            Call::Funds(FundsCall::MutualCancel { id: x, .. }) => x == id,
            _ => false,
        },
        (EscrowStatus::Disputed, EscrowStatus::Active) | (
            EscrowStatus::Disputed,
            EscrowStatus::Completed,
        ) => match call {
            Call::Dispute(DisputeCall::ResolveDispute { id: x, .. }) => x == id,
            Call::Dispute(DisputeCall::ForceResolveStaleDispute { id: x, .. }) => x == id,
            _ => false,
        },
        _ => false,
    }
}

impl EscrowModel {
    /// Whether the escrow may become `f` in one call: the parties and the asset
    /// are fixed; once it is funded its terms are fixed too, what is settled
    /// stays settled, and no auto-release moves closer; once it is over nothing
    /// changes.
    pub open spec fn may_become(self, f: EscrowModel) -> bool {
        &&& f.id == self.id
        &&& f.renter == self.renter
        &&& f.host == self.host
        &&& f.asset == self.asset
        &&& f.created_at == self.created_at
        &&& f.requires_host_acceptance == self.requires_host_acceptance
        &&& self.ever_disputed ==> f.ever_disputed
        &&& self.status != EscrowStatus::Created ==> {
            &&& f.total_amount == self.total_amount
            &&& f.funded_amount == self.funded_amount
            &&& f.milestones.len() == self.milestones.len()
            &&& forall|i: int|
                0 <= i < self.milestones.len() ==> {
                    let before = self.milestones[i];
                    let after = #[trigger] f.milestones[i];
                    &&& after.amount == before.amount
                    &&& after.description == before.description
                    &&& after.auto_release_offset == before.auto_release_offset
                    &&& after.auto_release_at >= before.auto_release_at
                    &&& before.released ==> after == before
                }
        }
        &&& self.status == EscrowStatus::Completed || self.status == EscrowStatus::Cancelled ==> f
            == self
    }
}

impl DisputeModel {
    /// Whether the dispute may become `f` in one call: who opened it, its jury
    /// and the rules it was opened under are fixed; votes and evidence are only
    /// added, and the deadline moves only later; once it is resolved nothing
    /// changes.
    pub open spec fn may_become(self, f: DisputeModel) -> bool {
        &&& f.escrow_id == self.escrow_id
        &&& f.milestone_index == self.milestone_index
        &&& f.opened_by == self.opened_by
        &&& f.evidence_uri == self.evidence_uri
        &&& f.jurors == self.jurors
        &&& f.slash_bps == self.slash_bps
        &&& f.arbitration_fee_bps == self.arbitration_fee_bps
        &&& f.stake_weighted == self.stake_weighted
        &&& self.votes_for_renter.is_prefix_of(f.votes_for_renter)
        &&& self.votes_for_host.is_prefix_of(f.votes_for_host)
        &&& self.additional_evidence.is_prefix_of(f.additional_evidence)
        &&& self.voting_deadline <= f.voting_deadline
        &&& self.resolved ==> f == self
    }
}

/// An escrow never disappears, changes only as `may_become` says, and takes the
/// steps between its statuses only through the calls meant for them.
pub proof fn law_escrow_history(s: State, call: Call, id: u32)
    requires
        s.wf(),
        s.consistent(),
        s.escrows.contains_key(id),
    ensures
        s.step(call).0.escrows.contains_key(id),
        s.escrows[id].may_become(s.step(call).0.escrows[id]),
        s.step(call).0.escrows[id].status != s.escrows[id].status ==> moves(
            call,
            id,
            s.escrows[id].status,
            s.step(call).0.escrows[id].status,
        ),
{
    match call {
        Call::Admin(c) => lemma_admin_change(s, c),
        Call::Terms(c) => lemma_terms_change(s, c),
        Call::Funds(c) => lemma_funds_change(s, c),
        Call::Dispute(c) => {
            lemma_dispute_change(s, c);
            let k = dispute_target(c);
            if s.disputes.contains_key(k) {
                assert(s.dispute_ok(k));
            }
        },
        Call::Juror(c) => lemma_juror_change(s, c),
    }
}

/// Whether `call` entitles milestone `i` of escrow `id` to leave the pending
/// state: the renter confirms it, its timeout has passed with the escrow
/// undisputed, both parties unwind the escrow, or the dispute on it is settled
/// by a full vote, or after its deadline with votes missing.
pub open spec fn settles(s: State, call: Call, id: u32, i: u32) -> bool {
    let e = s.escrows[id];
    let d = s.disputes[(id, i)];
    match call {
        Call::Funds(FundsCall::ConfirmMilestone { renter, id: x, i: y, .. }) => x == id && y == i
            && renter == e.renter && e.status == EscrowStatus::Active,
        Call::Funds(FundsCall::ConfirmAllMilestones { renter, id: x, .. }) => x == id && renter
            == e.renter && e.status == EscrowStatus::Active,
        Call::Funds(FundsCall::CheckAutoRelease { id: x, i: y, now }) => x == id && y == i && now
            >= e.milestones[i as int].auto_release_at && e.status == EscrowStatus::Active,
        Call::Funds(FundsCall::MutualCancel { renter, host, id: x }) => x == id && renter
            == e.renter && host == e.host && e.status == EscrowStatus::Active,
        Call::Dispute(DisputeCall::ResolveDispute { id: x, i: y, .. }) => x == id && y == i
            && e.dispute_id == Some(i) && d.all_voted(),
        Call::Dispute(DisputeCall::ForceResolveStaleDispute { id: x, i: y, now }) => x == id && y
            == i && e.dispute_id == Some(i) && now >= d.voting_deadline && !d.all_voted(),
        _ => false,
    }
}

/// No third party can move what an escrow holds: a pending milestone is settled
/// only by its parties' own word, by its timeout, or by the settlement of a
/// dispute on it. Nothing of a proposal is ever settled.
pub proof fn law_only_entitled_calls_settle(s: State, call: Call, id: u32, i: u32)
    requires
        s.wf(),
        s.consistent(),
        s.escrows.contains_key(id),
        s.escrows[id].status != EscrowStatus::Created,
        i < s.escrows[id].milestones.len(),
        !s.escrows[id].milestones[i as int].released,
        s.step(call).0.escrows[id].milestones[i as int].released,
    ensures
        settles(s, call, id, i),
{
    match call {
        Call::Admin(c) => lemma_admin_change(s, c),
        Call::Terms(c) => lemma_terms_change(s, c),
        Call::Funds(c) => lemma_funds_change(s, c),
        Call::Dispute(c) => {
            lemma_dispute_change(s, c);
            let k = dispute_target(c);
            if s.disputes.contains_key(k) {
                assert(s.dispute_ok(k));
            }
        },
        Call::Juror(c) => lemma_juror_change(s, c),
    }
}

/// A list starts with itself, and with one more element still does.
proof fn lemma_prefix<A>(list: Seq<A>, x: A)
    ensures
        list.is_prefix_of(list),
        list.is_prefix_of(list.push(x)),
{
    assert(list =~= list.subrange(0, list.len() as int));
    assert(list =~= list.push(x).subrange(0, list.len() as int));
}

/// The record of a dispute is kept forever and changes only as `may_become`
/// says: in particular, disputes on other milestones of the same escrow, or
/// later ones, never overwrite it.
pub proof fn law_dispute_history(s: State, call: Call, k: (u32, u32))
    requires
        s.wf(),
        s.consistent(),
        s.disputes.contains_key(k),
    ensures
        s.step(call).0.disputes.contains_key(k),
        s.disputes[k].may_become(s.step(call).0.disputes[k]),
{
    let d = s.disputes[k];
    assert(s.dispute_ok(k));
    lemma_prefix(d.votes_for_renter, 0);
    lemma_prefix(d.votes_for_host, 0);
    lemma_prefix(d.additional_evidence, Seq::empty());
    match call {
        Call::Admin(c) => lemma_admin_change(s, c),
        Call::Terms(c) => lemma_terms_change(s, c),
        Call::Funds(c) => lemma_funds_change(s, c),
        Call::Dispute(c) => {
            lemma_dispute_change(s, c);
            match c {
                DisputeCall::VoteDispute { juror, .. } => {
                    lemma_prefix(d.votes_for_renter, juror);
                    lemma_prefix(d.votes_for_host, juror);
                },
                DisputeCall::AddDisputeEvidence { evidence, .. } => {
                    lemma_prefix(d.additional_evidence, evidence);
                },
                _ => {},
            }
        },
        Call::Juror(c) => lemma_juror_change(s, c),
    }
}

/// Two disputes on one escrow are never open at the same time, and none is open
/// on an escrow that was never funded.
pub proof fn law_one_open_dispute(s: State, id: u32, i: u32, j: u32)
    requires
        s.consistent(),
        s.disputes.contains_key((id, i)),
        !s.disputes[(id, i)].resolved,
    ensures
        s.escrows[id].status == EscrowStatus::Disputed,
        s.escrows[id].funded_amount == s.escrows[id].total_amount,
        s.disputes.contains_key((id, j)) && !s.disputes[(id, j)].resolved ==> j == i,
{
    assert(s.dispute_ok((id, i)));
    assert(s.escrows[id].status_ok());
    if s.disputes.contains_key((id, j)) {
        assert(s.dispute_ok((id, j)));
    }
}

/// A juror has one vote: a second one on the same dispute is refused, for
/// whichever side.
pub proof fn law_one_vote_each(
    s: State,
    juror: Address,
    id: u32,
    i: u32,
    first: bool,
    second: bool,
)
    requires
        s.vote_dispute(juror, id, i, first).1 is Ok,
    ensures
        s.vote_dispute(juror, id, i, first).0.vote_dispute(juror, id, i, second).1 == Err::<
            (),
            Failure,
        >(Failure::Refused(Error::AlreadyVoted)),
{
    let d = s.disputes[(id, i)];
    lemma_push_contains(d.votes_for_renter, juror, juror);
    lemma_push_contains(d.votes_for_host, juror, juror);
}

/// A dispute is settled once: after that, neither a resolution nor a split goes
/// through.
pub proof fn law_settled_once(s: State, id: u32, i: u32, now: u64)
    requires
        s.disputes.contains_key((id, i)),
        s.disputes[(id, i)].resolved,
    ensures
        s.resolve_dispute(id, i, now) == (s, Err::<(), Failure>(
            Failure::Refused(Error::AlreadyResolved),
        )),
        s.force_resolve_stale_dispute(id, i, now) == (s, Err::<(), Failure>(
            Failure::Refused(Error::AlreadyResolved),
        )),
{
}

} // verus!
