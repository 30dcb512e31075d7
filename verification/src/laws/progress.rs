//! Nothing stays locked because somebody stays silent.

use crate::errors::{Error, Failure};
use crate::params::UNFUNDED_EXPIRY_WINDOW;
use crate::state::State;
use crate::types::{Address, DisputeModel, EscrowStatus};
use vstd::prelude::*;
use vstd::set_lib::{lemma_len_subset, lemma_set_disjoint_lens, lemma_subset_equality};

verus! {

/// A pending milestone of an undisputed escrow can be released by anyone once
/// its timeout has passed, as long as the amounts are in range.
pub proof fn law_timeouts_release(s: State, id: u32, i: u32, now: u64)
    requires
        s.escrows.contains_key(id),
        s.escrows[id].status == EscrowStatus::Active,
        i < s.escrows[id].milestones.len(),
        !s.escrows[id].milestones[i as int].released,
        s.escrows[id].milestones[i as int].auto_release_at <= now,
        s.payout_fits(s.escrows[id].host, s.escrows[id].milestones[i as int].amount as int),
        s.escrows[id].is_last_pending(i as int) ==> s.bonus_fits(s.escrows[id]),
    ensures
        s.check_auto_release(id, i, now).1 is Ok,
        s.check_auto_release(id, i, now).0.escrows[id].milestones[i as int].released,
{
}

/// A proposal that nobody funds can be cleared away by anyone once its window
/// has passed.
pub proof fn law_proposals_expire(s: State, id: u32, now: u64)
    requires
        s.escrows.contains_key(id),
        s.escrows[id].status == EscrowStatus::Created,
        s.escrows[id].created_at + UNFUNDED_EXPIRY_WINDOW <= now,
    ensures
        s.expire_unfunded_escrow(id, now).1 is Ok,
        s.expire_unfunded_escrow(id, now).0.escrows[id].status == EscrowStatus::Cancelled,
{
}

/// There are as many votes as jurors exactly when every juror has voted, and
/// never more.
pub proof fn law_full_vote(d: DisputeModel)
    requires
        d.wf(),
    ensures
        d.votes_for_renter.len() + d.votes_for_host.len() <= d.jurors.len(),
        d.votes_for_renter.len() + d.votes_for_host.len() == d.jurors.len() <==> forall|a: Address|
            #[trigger] d.jurors.contains(a) ==> d.has_voted(a),
{
    broadcast use vstd::seq_lib::seq_to_set_is_finite;

    let r = d.votes_for_renter.to_set();
    let h = d.votes_for_host.to_set();
    let j = d.jurors.to_set();
    d.votes_for_renter.unique_seq_to_set();
    d.votes_for_host.unique_seq_to_set();
    d.jurors.unique_seq_to_set();
    assert forall|a: Address| !(r.contains(a) && h.contains(a)) by {
        assert(d.votes_for_renter.contains(a) == r.contains(a));
    }
    assert(r.disjoint(h));
    lemma_set_disjoint_lens(r, h);
    assert forall|a: Address| (r + h).contains(a) implies j.contains(a) by {
        assert(d.has_voted(a));
        assert(d.votes_for_renter.contains(a) || d.votes_for_host.contains(a));
    }
    lemma_len_subset(r + h, j);
    if (r + h).len() == j.len() {
        lemma_subset_equality(r + h, j);
        assert forall|a: Address| #[trigger] d.jurors.contains(a) implies d.has_voted(a) by {
            assert(j.contains(a));
            assert((r + h).contains(a));
        }
    }
    if forall|a: Address| #[trigger] d.jurors.contains(a) ==> d.has_voted(a) {
        assert forall|a: Address| j.contains(a) implies (r + h).contains(a) by {
            assert(d.jurors.contains(a));
        }
        assert(r + h =~= j);
    }
}

/// A disputed escrow can be unfrozen by anyone once the voting deadline has
/// passed with some juror still silent, as long as the amounts are in range.
pub proof fn law_timeouts_settle(s: State, id: u32, i: u32, now: u64, silent: Address)
    requires
        s.wf(),
        s.consistent(),
        s.escrows.contains_key(id),
        s.escrows[id].dispute_id == Some(i),
        s.disputes[(id, i)].voting_deadline <= now,
        s.disputes[(id, i)].jurors.contains(silent),
        !s.disputes[(id, i)].has_voted(silent),
        ({
            let amount = s.escrows[id].milestones[i as int].amount as int;
            &&& s.payout_fits(s.escrows[id].renter, amount / 2)
            &&& s.payout_fits(s.escrows[id].host, amount - amount / 2)
        }),
    ensures
        s.force_resolve_stale_dispute(id, i, now).1 is Ok,
        s.force_resolve_stale_dispute(id, i, now).0.escrows[id].status != EscrowStatus::Disputed,
        s.force_resolve_stale_dispute(id, i, now).0.escrows[id].milestones[i as int].released,
{
    assert(s.escrows[id].status_ok());
    law_full_vote(s.disputes[(id, i)]);
}

/// A verdict stands: once every juror has voted, no split goes through, however
/// late it is asked for.
pub proof fn law_verdicts_stand(s: State, id: u32, i: u32, now: u64)
    requires
        s.wf(),
        s.disputes.contains_key((id, i)),
        !s.disputes[(id, i)].resolved,
        forall|a: Address| #[trigger]
            s.disputes[(id, i)].jurors.contains(a) ==> s.disputes[(id, i)].has_voted(a),
    ensures
        s.force_resolve_stale_dispute(id, i, now) == (s, Err::<(), Failure>(
            Failure::Refused(
                if now < s.disputes[(id, i)].voting_deadline {
                    Error::TooEarly
                } else {
                    Error::InvalidState
                },
            ),
        )),
{
    law_full_vote(s.disputes[(id, i)]);
}

/// Once every juror has voted, the votes can be counted, as long as the amounts
/// are in range.
pub proof fn law_full_votes_resolve(s: State, id: u32, i: u32, now: u64)
    requires
        s.wf(),
        s.consistent(),
        s.escrows.contains_key(id),
        s.escrows[id].dispute_id == Some(i),
        forall|a: Address| #[trigger]
            s.disputes[(id, i)].jurors.contains(a) ==> s.disputes[(id, i)].has_voted(a),
        s.settlement_fits(s.disputes[(id, i)], s.escrows[id]),
    ensures
        s.resolve_dispute(id, i, now).1 is Ok,
        s.resolve_dispute(id, i, now).0.escrows[id].status != EscrowStatus::Disputed,
{
    assert(s.escrows[id].status_ok());
    law_full_vote(s.disputes[(id, i)]);
}

} // verus!
