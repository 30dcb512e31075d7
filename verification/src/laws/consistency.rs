//! How the records of the contract fit together.

use crate::incentives::redistributed;
use crate::jurors::{lemma_jury_sound, lemma_push_contains, without};
use crate::laws::calls::{AdminCall, Call, DisputeCall, FundsCall, JurorCall, TermsCall};
use crate::laws::changes::lemma_admin_change;
use crate::release::lemma_announce_releases_frame;
use crate::state::{lookup, State};
use crate::types::{Address, DisputeModel, DisputeOutcome, EscrowModel, EscrowStatus};
use vstd::prelude::*;

verus! {

impl EscrowModel {
    /// Whether every milestone is pending.
    pub open spec fn none_released(self) -> bool {
        forall|i: int| 0 <= i < self.milestones.len() ==> !(#[trigger] self.milestones[i]).released
    }

    /// What the status of an escrow says about its other fields: a proposal
    /// holds no funds and has no history; an escrow under way is fully funded
    /// and has something pending, and the disputed milestone is pending; a
    /// completed escrow has nothing pending.
    pub open spec fn status_ok(self) -> bool {
        &&& self.dispute_id is Some <==> self.status == EscrowStatus::Disputed
        &&& self.status == EscrowStatus::Created ==> {
            &&& self.funded_amount == 0
            &&& !self.ever_disputed
            &&& self.none_released()
        }
        &&& self.status == EscrowStatus::Active || self.status == EscrowStatus::Disputed ==> {
            &&& self.funded_amount == self.total_amount
            &&& !self.all_released()
        }
        &&& self.status == EscrowStatus::Completed ==> {
            &&& self.funded_amount == self.total_amount
            &&& self.all_released()
        }
        &&& self.dispute_id matches Some(i) ==> {
            &&& i < self.milestones.len()
            &&& !self.milestones[i as int].released
            &&& self.ever_disputed
        }
    }
}

impl State {
    /// The disputes that are open and have `juror` on their jury.
    pub open spec fn open_disputes(self, juror: Address) -> Set<(u32, u32)> {
        Set::new(
            |k: (u32, u32)|
                self.disputes.contains_key(k) && !self.disputes[k].resolved
                    && self.disputes[k].jurors.contains(juror),
        )
    }

    /// The escrows listed under `party`.
    pub open spec fn listed(self, party: Address) -> Seq<u32> {
        lookup(self.party_escrows, party, Seq::empty())
    }

    /// The escrow IDs are those below the count.
    pub open spec fn ids_ok(self) -> bool {
        forall|id: u32| #[trigger] self.escrows.contains_key(id) <==> id < self.escrow_count
    }

    /// Every status agrees with its escrow, and an escrow under dispute has the
    /// open record of that dispute.
    pub open spec fn escrows_ok(self) -> bool {
        forall|id: u32| #[trigger]
            self.escrows.contains_key(id) ==> {
                &&& self.escrows[id].status_ok()
                &&& self.escrows[id].dispute_id matches Some(i) ==> {
                    &&& self.disputes.contains_key((id, i))
                    &&& !self.disputes[(id, i)].resolved
                }
            }
    }

    /// The dispute `k` is about a milestone of its escrow. While it is open it
    /// is the one that freezes the escrow, and its jurors keep their stakes;
    /// once it is resolved its milestone is settled. A split means that votes
    /// were missing, a verdict that none was. Its jurors are neutral.
    pub open spec fn dispute_ok(self, k: (u32, u32)) -> bool {
        let d = self.disputes[k];
        let e = self.escrows[k.0];
        &&& self.escrows.contains_key(k.0)
        &&& k.1 < e.milestones.len()
        &&& e.ever_disputed
        &&& d.resolved <==> d.outcome != DisputeOutcome::Pending
        &&& d.resolved ==> e.milestones[k.1 as int].released
        &&& d.outcome == DisputeOutcome::Split ==> !d.all_voted()
        &&& d.outcome == DisputeOutcome::RenterWins || d.outcome == DisputeOutcome::HostWins
            ==> d.all_voted()
        &&& !d.resolved ==> e.dispute_id == Some(k.1)
        &&& forall|a: Address| #[trigger]
            d.jurors.contains(a) ==> {
                &&& !e.is_party(a)
                &&& !d.resolved ==> self.juror_stakes.contains_key(a)
            }
    }

    /// Every dispute agrees with its escrow.
    pub open spec fn disputes_ok(self) -> bool {
        forall|k: (u32, u32)| #[trigger] self.disputes.contains_key(k) ==> self.dispute_ok(k)
    }

    /// The pool is made of those who have a stake.
    pub open spec fn pool_ok(self) -> bool {
        forall|a: Address| #[trigger]
            self.juror_stakes.contains_key(a) <==> self.juror_pool.contains(a)
    }

    /// The assignment counts are right.
    pub open spec fn counts_ok(self) -> bool {
        forall|a: Address|
            {
                &&& (#[trigger] self.open_disputes(a)).finite()
                &&& self.active_count(a) == self.open_disputes(a).len()
            }
    }

    /// Each address has the escrows listed in which it is a party, each once,
    /// oldest first.
    pub open spec fn index_ok(self) -> bool {
        &&& forall|a: Address, id: u32| #[trigger]
            self.listed(a).contains(id) <==> self.escrows.contains_key(id)
                && self.escrows[id].is_party(a)
        &&& forall|a: Address, i: int, j: int|
            0 <= i < j < self.listed(a).len() ==> #[trigger] self.listed(a)[i]
                < #[trigger] self.listed(a)[j]
    }

    /// The records fit together.
    pub open spec fn consistent(self) -> bool {
        &&& self.ids_ok()
        &&& self.escrows_ok()
        &&& self.disputes_ok()
        &&& self.pool_ok()
        &&& self.counts_ok()
        &&& self.index_ok()
    }

    /// Whether `t` has the same records, whatever else changed.
    pub open spec fn same_records(self, t: State) -> bool {
        &&& t.escrow_count == self.escrow_count
        &&& t.escrows == self.escrows
        &&& t.disputes == self.disputes
        &&& t.juror_pool == self.juror_pool
        &&& t.juror_stakes == self.juror_stakes
        &&& t.active_disputes == self.active_disputes
        &&& t.party_escrows == self.party_escrows
    }
}

/// A contract on which nothing was called yet has nothing that could disagree.
pub proof fn law_empty_consistent()
    ensures
        State::empty().consistent(),
{
    let s = State::empty();
    assert forall|a: Address| (#[trigger] s.open_disputes(a)).finite() && s.active_count(a)
        == s.open_disputes(a).len() by {
        assert(s.open_disputes(a) =~= Set::empty());
    }
}

/// The lists of escrows stay right where neither they nor the parties change.
proof fn lemma_index_kept(s: State, t: State)
    requires
        s.index_ok(),
        t.party_escrows == s.party_escrows,
        forall|id: u32| #[trigger] t.escrows.contains_key(id) <==> s.escrows.contains_key(id),
        forall|id: u32| #[trigger]
            t.escrows.contains_key(id) ==> {
                &&& t.escrows[id].renter == s.escrows[id].renter
                &&& t.escrows[id].host == s.escrows[id].host
            },
    ensures
        t.index_ok(),
{
    assert forall|a: Address, id: u32| #[trigger]
        t.listed(a).contains(id) <==> t.escrows.contains_key(id) && t.escrows[id].is_party(a) by {
        assert(s.listed(a).contains(id) == t.listed(a).contains(id));
    }
    assert forall|a: Address, i: int, j: int|
        0 <= i < j < t.listed(a).len() implies #[trigger] t.listed(a)[i]
        < #[trigger] t.listed(a)[j] by {
        assert(s.listed(a)[i] < s.listed(a)[j]);
    }
}

/// The assignment counts stay right where neither they nor the juries of open
/// disputes change.
proof fn lemma_counts_kept(s: State, t: State)
    requires
        s.counts_ok(),
        t.active_disputes == s.active_disputes,
        forall|k: (u32, u32)| #[trigger]
            t.disputes.contains_key(k) <==> s.disputes.contains_key(k),
        forall|k: (u32, u32)| #[trigger]
            t.disputes.contains_key(k) ==> {
                &&& t.disputes[k].resolved == s.disputes[k].resolved
                &&& t.disputes[k].jurors == s.disputes[k].jurors
            },
    ensures
        t.counts_ok(),
{
    assert forall|a: Address| (#[trigger] t.open_disputes(a)).finite() && t.active_count(a)
        == t.open_disputes(a).len() by {
        assert forall|k: (u32, u32)| t.open_disputes(a).contains(k) <==> s.open_disputes(
            a,
        ).contains(k) by {
            assert(t.disputes.contains_key(k) == s.disputes.contains_key(k));
        }
        assert(t.open_disputes(a) =~= s.open_disputes(a));
    }
}

/// Consistency is about the records alone.
pub proof fn lemma_same_records(s: State, t: State)
    requires
        s.consistent(),
        s.same_records(t),
    ensures
        t.consistent(),
{
    lemma_counts_kept(s, t);
    lemma_index_kept(s, t);
    assert forall|k: (u32, u32)| #[trigger] t.disputes.contains_key(k) implies t.dispute_ok(k) by {
        assert(s.disputes.contains_key(k));
    }
}

/// Whether escrow `id` became `e`, and no other record changed.
spec fn one_escrow_changed(s: State, t: State, id: u32, e: EscrowModel) -> bool {
    &&& s.escrows.contains_key(id)
    &&& s.with_escrow(id, e).same_records(t)
    &&& e.renter == s.escrows[id].renter
    &&& e.host == s.escrows[id].host
}

/// An escrow may change alone as long as its disputes keep their place.
proof fn lemma_one_escrow(s: State, t: State, id: u32, e: EscrowModel)
    requires
        s.consistent(),
        one_escrow_changed(s, t, id, e),
        e.status_ok(),
        e.dispute_id == s.escrows[id].dispute_id,
        s.escrows[id].ever_disputed ==> {
            &&& e.ever_disputed
            &&& e.milestones.len() == s.escrows[id].milestones.len()
            &&& forall|i: int|
                0 <= i < e.milestones.len() && (#[trigger] s.escrows[id].milestones[i]).released
                    ==> e.milestones[i].released
        },
    ensures
        t.consistent(),
{
    lemma_counts_kept(s, t);
    lemma_index_kept(s, t);
    assert forall|k: (u32, u32)| #[trigger] t.disputes.contains_key(k) implies t.dispute_ok(k) by {
        assert(s.disputes.contains_key(k));
        assert(s.dispute_ok(k));
    }
}

/// An open dispute may change alone as long as it stays open and keeps its jury.
proof fn lemma_one_dispute(s: State, t: State, k: (u32, u32), d: DisputeModel)
    requires
        s.consistent(),
        s.disputes.contains_key(k),
        s.with_dispute(k, d).same_records(t),
        d.jurors == s.disputes[k].jurors,
        !s.disputes[k].resolved,
        !d.resolved,
        d.outcome == s.disputes[k].outcome,
    ensures
        t.consistent(),
{
    lemma_counts_kept(s, t);
    lemma_index_kept(s, t);
    assert forall|x: (u32, u32)| #[trigger] t.disputes.contains_key(x) implies t.dispute_ok(x) by {
        assert(s.disputes.contains_key(x));
        assert(s.dispute_ok(x));
    }
}

proof fn lemma_admin_consistent(s: State, c: AdminCall)
    requires
        s.consistent(),
    ensures
        s.admin_step(c).0.consistent(),
{
    lemma_admin_change(s, c);
    lemma_same_records(s, s.admin_step(c).0);
}

proof fn lemma_release_consistent(s: State, id: u32, i: u32, now: u64)
    requires
        s.wf(),
        s.consistent(),
        s.escrows.contains_key(id),
        s.release_refusal(s.escrows[id], i) is None,
    ensures
        s.release(id, i, now).consistent(),
{
    let e = s.escrows[id];
    let f = e.release(i as int, now);
    assert(forall|j: int|
        0 <= j < f.milestones.len() && j != i ==> f.milestones[j] == e.milestones[j]);
    lemma_one_escrow(s, s.release(id, i, now), id, f);
}

#[verifier::spinoff_prover]
proof fn lemma_funds_consistent(s: State, c: FundsCall)
    requires
        s.wf(),
        s.consistent(),
    ensures
        s.funds_step(c).0.consistent(),
{
    reveal(State::funds_step);
    let t = s.funds_step(c).0;
    if s.funds_step(c).1 is Some {
        lemma_same_records(s, t);
    } else {
        match c {
            FundsCall::Deposit { renter, id, now } => {
                let e = s.escrows[id];
                let f = e.fund(now);
                assert(forall|j: int|
                    0 <= j < f.milestones.len() ==> (#[trigger] f.milestones[j]).released
                        == e.milestones[j].released);
                assert(!f.milestones[0].released);
                lemma_one_escrow(s, t, id, f);
            },
            FundsCall::MutualCancel { renter, host, id } => {
                lemma_one_escrow(s, t, id, s.escrows[id].unwind());
            },
            FundsCall::ConfirmMilestone { renter, id, i, now } => {
                let d = s.demand(renter);
                lemma_same_records(s, d);
                lemma_release_consistent(d, id, i, now);
            },
            FundsCall::ConfirmAllMilestones { renter, id, now } => {
                let d = s.demand(renter);
                let e = s.escrows[id];
                lemma_announce_releases_frame(d, d, e, e.milestones.len());
                if e.all_released() {
                    lemma_same_records(s, t);
                } else {
                    lemma_one_escrow(s, t, id, e.release_all(now));
                }
            },
            FundsCall::CheckAutoRelease { id, i, now } => {
                lemma_release_consistent(s, id, i, now);
            },
            FundsCall::ExtendMilestoneDeadline { renter, id, i, extra } => {
                let e = s.escrows[id];
                let f = t.escrows[id];
                assert(forall|j: int|
                    0 <= j < f.milestones.len() ==> (#[trigger] f.milestones[j]).released
                        == e.milestones[j].released);
                assert(!f.milestones[i as int].released);
                lemma_one_escrow(s, t, id, f);
            },
        }
    }
}

#[verifier::spinoff_prover]
proof fn lemma_create_consistent(s: State, c: TermsCall)
    requires
        s.wf(),
        s.consistent(),
        c is CreateEscrow,
    ensures
        s.terms_step(c).0.consistent(),
{
    reveal(State::terms_step);
    let t = s.terms_step(c).0;
    if s.terms_step(c).1 is Some {
        lemma_same_records(s, t);
    } else {
        let id = s.escrow_count;
        let e = t.escrows[id];
        assert(!s.escrows.contains_key(id));
        assert(e.none_released());
        lemma_counts_kept(s, t);
        assert forall|k: (u32, u32)| #[trigger] t.disputes.contains_key(k) implies t.dispute_ok(
            k,
        ) by {
            assert(s.disputes.contains_key(k));
            assert(s.dispute_ok(k));
        }
        assert forall|a: Address| #[trigger] t.listed(a) == if e.is_party(a) {
            s.listed(a).push(id)
        } else {
            s.listed(a)
        } by {}
        assert forall|a: Address, x: u32| #[trigger]
            t.listed(a).contains(x) <==> t.escrows.contains_key(x) && t.escrows[x].is_party(a) by {
            lemma_push_contains(s.listed(a), id, x);
            assert(s.listed(a).contains(x) <==> s.escrows.contains_key(x)
                && s.escrows[x].is_party(a));
        }
        assert forall|a: Address, i: int, j: int|
            0 <= i < j < t.listed(a).len() implies #[trigger] t.listed(a)[i]
            < #[trigger] t.listed(a)[j] by {
            assert(s.listed(a)[i] == t.listed(a)[i]);
            assert(s.listed(a).contains(s.listed(a)[i]));
            if j < s.listed(a).len() {
                assert(s.listed(a)[i] < s.listed(a)[j]);
            }
        }
    }
}

#[verifier::spinoff_prover]
proof fn lemma_terms_consistent(s: State, c: TermsCall)
    requires
        s.wf(),
        s.consistent(),
    ensures
        s.terms_step(c).0.consistent(),
{
    reveal(State::terms_step);
    let t = s.terms_step(c).0;
    if c is CreateEscrow {
        lemma_create_consistent(s, c);
    } else if s.terms_step(c).1 is Some {
        lemma_same_records(s, t);
    } else {
        let id: u32 = match c {
            TermsCall::CreateEscrow { .. } => 0,
            TermsCall::AcceptEscrow { id, .. } => id,
            TermsCall::RejectEscrow { id, .. } => id,
            TermsCall::AddMilestone { id, .. } => id,
            TermsCall::RemoveMilestone { id, .. } => id,
            TermsCall::UpdateMilestone { id, .. } => id,
            TermsCall::CancelEscrow { id, .. } => id,
            TermsCall::ExpireUnfundedEscrow { id, .. } => id,
        };
        lemma_one_escrow(s, t, id, t.escrows[id]);
    }
}

/// In a consistent state, a pending milestone of an escrow under way was never
/// under dispute before.
proof fn lemma_fresh_dispute(s: State, id: u32, i: u32)
    requires
        s.consistent(),
        s.escrows.contains_key(id),
        s.escrows[id].status == EscrowStatus::Active,
        i < s.escrows[id].milestones.len(),
        !s.escrows[id].milestones[i as int].released,
    ensures
        !s.disputes.contains_key((id, i)),
{
    if s.disputes.contains_key((id, i)) {
        assert(s.dispute_ok((id, i)));
    }
}

proof fn lemma_raise_consistent(
    s: State,
    caller: Address,
    id: u32,
    i: u32,
    evidence: Seq<u8>,
    now: u64,
)
    requires
        s.wf(),
        s.consistent(),
        s.raise_dispute(caller, id, i, evidence, now).1 is Ok,
    ensures
        s.raise_dispute(caller, id, i, evidence, now).0.consistent(),
{
    let t = s.raise_dispute(caller, id, i, evidence, now).0;
    let k = (id, i);
    let e = s.escrows[id];
    let jury = s.jury(id, e.renter, e.host);
    lemma_jury_sound(s, id, e.renter, e.host);
    lemma_fresh_dispute(s, id, i);
    assert(t.disputes[k].jurors == jury);
    assert forall|a: Address| (#[trigger] t.open_disputes(a)).finite() && t.active_count(a)
        == t.open_disputes(a).len() by {
        assert(s.open_disputes(a).finite());
        assert(s.active_count(a) == s.open_disputes(a).len());
        if jury.contains(a) {
            let j = choose|j: int| 0 <= j < jury.len() && jury[j] == a;
            assert(s.active_count(jury[j]) < u32::MAX);
            assert(!s.open_disputes(a).contains(k));
            assert(t.open_disputes(a) =~= s.open_disputes(a).insert(k));
        } else {
            assert(t.open_disputes(a) =~= s.open_disputes(a));
        }
    }
    lemma_index_kept(s, t);
    assert forall|x: (u32, u32)| #[trigger] t.disputes.contains_key(x) implies t.dispute_ok(x) by {
        if x != k {
            assert(s.disputes.contains_key(x));
            assert(s.dispute_ok(x));
        }
    }
    assert forall|x: u32| #[trigger] t.escrows.contains_key(x) implies {
        &&& t.escrows[x].status_ok()
        &&& t.escrows[x].dispute_id matches Some(y) ==> {
            &&& t.disputes.contains_key((x, y))
            &&& !t.disputes[(x, y)].resolved
        }
    } by {
        assert(s.escrows.contains_key(x));
        if x == id {
            assert(!t.escrows[x].milestones[i as int].released);
        }
    }
}

/// Closing the open dispute of an escrow keeps the records consistent.
proof fn lemma_close_consistent(
    s: State,
    t: State,
    id: u32,
    i: u32,
    outcome: DisputeOutcome,
    at: u64,
    now: u64,
)
    requires
        s.wf(),
        s.consistent(),
        s.disputes.contains_key((id, i)),
        !s.disputes[(id, i)].resolved,
        outcome != DisputeOutcome::Pending,
        s.disputes[(id, i)].all_voted() <==> outcome != DisputeOutcome::Split,
        s.close_dispute(id, i, outcome, at, now).same_records(
            State { juror_stakes: s.juror_stakes, ..t },
        ),
        t.juror_stakes.dom() == s.juror_stakes.dom(),
    ensures
        t.consistent(),
{
    let k = (id, i);
    let e = s.escrows[id];
    let d = s.disputes[k];
    let f = e.settle(i as int, at);
    assert(s.dispute_ok(k));
    assert(forall|j: int|
        0 <= j < f.milestones.len() && j != i ==> f.milestones[j] == e.milestones[j]);
    assert(f.status_ok());
    assert forall|a: Address| (#[trigger] t.open_disputes(a)).finite() && t.active_count(a)
        == t.open_disputes(a).len() by {
        assert(s.open_disputes(a).finite());
        assert(s.active_count(a) == s.open_disputes(a).len());
        if d.jurors.contains(a) {
            assert(s.open_disputes(a).contains(k));
            assert(t.open_disputes(a) =~= s.open_disputes(a).remove(k));
        } else {
            assert(t.open_disputes(a) =~= s.open_disputes(a));
        }
    }
    assert forall|a: Address| #[trigger]
        t.juror_stakes.contains_key(a) <==> t.juror_pool.contains(a) by {
        assert(s.juror_stakes.contains_key(a) == t.juror_stakes.contains_key(a));
    }
    lemma_index_kept(s, t);
    assert forall|x: (u32, u32)| #[trigger] t.disputes.contains_key(x) implies t.dispute_ok(x) by {
        assert(s.disputes.contains_key(x));
        assert(s.dispute_ok(x));
        assert forall|a: Address| #[trigger] t.disputes[x].jurors.contains(a) implies {
            &&& !t.escrows[x.0].is_party(a)
            &&& !t.disputes[x].resolved ==> t.juror_stakes.contains_key(a)
        } by {
            assert(s.disputes[x].jurors.contains(a));
            assert(t.juror_stakes.dom().contains(a) == s.juror_stakes.dom().contains(a));
        }
    }
    assert forall|x: u32| #[trigger] t.escrows.contains_key(x) implies {
        &&& t.escrows[x].status_ok()
        &&& t.escrows[x].dispute_id matches Some(y) ==> {
            &&& t.disputes.contains_key((x, y))
            &&& !t.disputes[(x, y)].resolved
        }
    } by {
        assert(s.escrows.contains_key(x));
    }
}

#[verifier::spinoff_prover]
#[verifier::rlimit(20)]
proof fn lemma_dispute_consistent(s: State, c: DisputeCall)
    requires
        s.wf(),
        s.consistent(),
    ensures
        s.dispute_step(c).0.consistent(),
{
    reveal(State::dispute_step);
    let t = s.dispute_step(c).0;
    if s.dispute_step(c).1 is Some {
        lemma_same_records(s, t);
    } else {
        match c {
            DisputeCall::RaiseDispute { caller, id, i, evidence, now } => {
                lemma_raise_consistent(s, caller, id, i, evidence, now);
            },
            DisputeCall::AddDisputeEvidence { caller, id, i, evidence } => {
                lemma_one_dispute(s, t, (id, i), t.disputes[(id, i)]);
            },
            DisputeCall::ExtendDisputeDeadline { renter, host, id, i, extra } => {
                lemma_one_dispute(s, t, (id, i), t.disputes[(id, i)]);
            },
            DisputeCall::VoteDispute { juror, id, i, vote_for_renter } => {
                lemma_one_dispute(s, t, (id, i), t.disputes[(id, i)]);
            },
            DisputeCall::ResolveDispute { id, i, now } => {
                let d = s.disputes[(id, i)];
                let w = s.renter_wins(d);
                let after = redistributed(
                    s.juror_stakes,
                    d.winning_votes(w),
                    d.losing_votes(w),
                    d.slash_bps,
                );
                assert(after.dom() =~= s.juror_stakes.dom());
                lemma_close_consistent(
                    s,
                    t,
                    id,
                    i,
                    t.disputes[(id, i)].outcome,
                    if w {
                        0
                    } else {
                        now
                    },
                    now,
                );
            },
            DisputeCall::ForceResolveStaleDispute { id, i, now } => {
                lemma_close_consistent(s, t, id, i, DisputeOutcome::Split, now, now);
            },
        }
    }
}

/// What a list without repetition holds once `who` has left.
pub proof fn lemma_without(pool: Seq<Address>, who: Address, a: Address)
    requires
        pool.no_duplicates(),
    ensures
        without(pool, who).contains(a) <==> pool.contains(a) && a != who,
{
    if pool.contains(who) {
        let p = pool.index_of(who);
        let rest = pool.remove(p);
        if rest.contains(a) {
            let j = choose|j: int| 0 <= j < rest.len() && rest[j] == a;
            assert(rest[j] == if j < p {
                pool[j]
            } else {
                pool[j + 1]
            });
        }
        if pool.contains(a) && a != who {
            let j = choose|j: int| 0 <= j < pool.len() && pool[j] == a;
            assert(rest[if j < p {
                j
            } else {
                j - 1
            }] == a);
        }
    }
}

#[verifier::spinoff_prover]
proof fn lemma_juror_consistent(s: State, c: JurorCall)
    requires
        s.wf(),
        s.consistent(),
    ensures
        s.juror_step(c).0.consistent(),
{
    reveal(State::juror_step);
    let t = s.juror_step(c).0;
    if s.juror_step(c).1 is Some {
        lemma_same_records(s, t);
    } else {
        let juror = match c {
            JurorCall::RegisterJuror { juror, .. } => juror,
            JurorCall::WithdrawJurorStake { juror } => juror,
        };
        lemma_counts_kept(s, t);
        assert forall|a: Address| #[trigger]
            t.juror_stakes.contains_key(a) <==> t.juror_pool.contains(a) by {
            assert(s.juror_stakes.contains_key(a) <==> s.juror_pool.contains(a));
            lemma_push_contains(s.juror_pool, juror, a);
            lemma_without(s.juror_pool, juror, a);
        }
        lemma_index_kept(s, t);
        assert forall|x: (u32, u32)| #[trigger] t.disputes.contains_key(x) implies t.dispute_ok(
            x,
        ) by {
            assert(s.disputes.contains_key(x));
            assert(s.dispute_ok(x));
            assert forall|a: Address| #[trigger] t.disputes[x].jurors.contains(a) implies {
                &&& !t.escrows[x.0].is_party(a)
                &&& !t.disputes[x].resolved ==> t.juror_stakes.contains_key(a)
            } by {
                assert(s.disputes[x].jurors.contains(a));
                if !s.disputes[x].resolved && a == juror {
                    assert(s.open_disputes(a).contains(x));
                    assert(s.active_count(a) == s.open_disputes(a).len());
                }
            }
        }
    }
}

/// Every call keeps the records consistent.
pub proof fn law_consistency_kept(s: State, call: Call)
    requires
        s.wf(),
        s.consistent(),
    ensures
        s.step(call).0.consistent(),
{
    match call {
        Call::Admin(c) => lemma_admin_consistent(s, c),
        Call::Terms(c) => lemma_terms_consistent(s, c),
        Call::Funds(c) => lemma_funds_consistent(s, c),
        Call::Dispute(c) => lemma_dispute_consistent(s, c),
        Call::Juror(c) => lemma_juror_consistent(s, c),
    }
}

} // verus!
