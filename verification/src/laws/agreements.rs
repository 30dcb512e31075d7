//! Terms, acceptance and confirmation.

use crate::errors::{Error, Failure};
use crate::laws::calls::{Call, TermsCall};
use crate::laws::changes::{
    lemma_admin_change, lemma_dispute_change, lemma_funds_change, lemma_juror_change,
};
use crate::release::{lemma_announce_releases_frame, settled};
use crate::state::State;
use crate::types::{Address, EscrowModel, EscrowStatus, Event};
use vstd::prelude::*;

verus! {

/// Nobody accepts in the host's place: terms that were not accepted become
/// accepted only through the host's own call.
#[verifier::spinoff_prover]
pub proof fn law_only_the_host_accepts(s: State, call: Call, id: u32)
    requires
        s.wf(),
        s.consistent(),
        s.escrows.contains_key(id),
        !s.escrows[id].host_accepted,
        s.step(call).0.escrows[id].host_accepted,
    ensures
        call == Call::Terms(TermsCall::AcceptEscrow { host: s.escrows[id].host, id }),
{
    match call {
        Call::Admin(c) => lemma_admin_change(s, c),
        Call::Terms(c) => {
            reveal(State::terms_step);
        },
        Call::Funds(c) => lemma_funds_change(s, c),
        Call::Dispute(c) => {
            lemma_dispute_change(s, c);
        },
        Call::Juror(c) => lemma_juror_change(s, c),
    }
}

/// Whether `c` edits the terms of escrow `id`.
pub open spec fn edits(c: TermsCall, id: u32) -> bool {
    match c {
        TermsCall::AddMilestone { id: x, .. } => x == id,
        TermsCall::RemoveMilestone { id: x, .. } => x == id,
        TermsCall::UpdateMilestone { id: x, .. } => x == id,
        _ => false,
    }
}

/// Editing the terms takes an earlier acceptance back: an escrow that needs the
/// host's acceptance cannot be funded after an edit until the host accepts
/// again.
#[verifier::spinoff_prover]
pub proof fn law_edits_need_acceptance(s: State, c: TermsCall, id: u32, now: u64)
    requires
        s.wf(),
        edits(c, id),
        s.step(Call::Terms(c)).1 is None,
        s.escrows[id].requires_host_acceptance,
        !s.paused,
    ensures
        ({
            let t = s.step(Call::Terms(c)).0;
            let renter = s.escrows[id].renter;
            &&& !t.escrows[id].host_accepted
            &&& t.deposit(renter, id, now).1 == Err::<(), Failure>(
                Failure::Refused(Error::HostAcceptancePending),
            )
        }),
{
    reveal(State::terms_step);
}

/// An escrow is funded only with terms that stand accepted, by its renter, and
/// then in full.
pub proof fn law_funding(s: State, renter: Address, id: u32, now: u64)
    requires
        s.deposit(renter, id, now).1 is Ok,
    ensures
        s.escrows[id].host_accepted,
        s.escrows[id].renter == renter,
        s.escrows[id].status == EscrowStatus::Created,
        s.deposit(renter, id, now).0.escrows[id].funded_amount == s.escrows[id].total_amount,
        s.deposit(renter, id, now).0.escrows[id].status == EscrowStatus::Active,
{
}

impl State {
    /// The state once the pending ones among the first `n` milestones of escrow
    /// `id` are released one after the other.
    pub open spec fn release_in_turn(self, id: u32, n: nat, now: u64) -> State
        decreases n,
    {
        if n == 0 {
            self
        } else {
            let s = self.release_in_turn(id, (n - 1) as nat, now);
            if s.escrows[id].milestones[n - 1].released {
                s
            } else {
                s.release(id, (n - 1) as u32, now)
            }
        }
    }
}

/// `e` with its first `n` milestones settled.
spec fn partly_released(e: EscrowModel, n: nat, now: u64) -> EscrowModel {
    EscrowModel {
        milestones: Seq::new(
            e.milestones.len(),
            |j: int|
                if j < n && !e.milestones[j].released {
                    settled(e.milestones[j], now)
                } else {
                    e.milestones[j]
                },
        ),
        ..e
    }
}

/// Whether a milestone from `n` on is pending.
spec fn pending_from(e: EscrowModel, n: nat) -> bool {
    exists|j: int| n <= j < e.milestones.len() && !(#[trigger] e.milestones[j]).released
}

/// The state once the first `n` milestones of `e` are released together.
spec fn released_together(s: State, id: u32, n: nat, now: u64) -> State {
    let e = s.escrows[id];
    let t = s.announce_releases(e, n);
    if pending_from(e, n) {
        t.with_escrow(id, partly_released(e, n, now))
    } else {
        t.with_escrow(id, e.release_all(now)).credit_completion(e).publish(
            Event::Complete { id },
        )
    }
}

proof fn lemma_release_in_turn(s: State, id: u32, n: nat, now: u64)
    requires
        s.wf(),
        s.escrows.contains_key(id),
        !s.escrows[id].all_released(),
        n <= s.escrows[id].milestones.len(),
    ensures
        s.release_in_turn(id, n, now) == released_together(s, id, n, now),
    decreases n,
{
    let e = s.escrows[id];
    lemma_announce_releases_frame(s, s, e, n);
    if n == 0 {
        assert(partly_released(e, 0, now).milestones =~= e.milestones);
        assert(s.escrows.insert(id, e) =~= s.escrows);
        assert(pending_from(e, 0));
    } else {
        let m = (n - 1) as nat;
        lemma_release_in_turn(s, id, m, now);
        lemma_announce_releases_frame(s, s, e, m);
        let t = s.release_in_turn(id, m, now);
        let f = t.escrows[id];
        if pending_from(e, m) {
            assert(f == partly_released(e, m, now));
            assert(f.milestones[n - 1] == e.milestones[n - 1]);
            if e.milestones[n - 1].released {
                let j = choose|j: int|
                    m <= j < e.milestones.len() && !(#[trigger] e.milestones[j]).released;
                assert(n <= j);
                assert(pending_from(e, n));
                assert(partly_released(e, n, now).milestones =~= f.milestones);
            } else {
                let u = t.release(id, m as u32, now);
                let g = f.release(m as int, now);
                assert(partly_released(e, n, now).milestones =~= f.milestones.update(
                    m as int,
                    settled(f.milestones[m as int], now),
                ));
                assert(t.announce_release(f, m as int).effects == s.announce_releases(
                    e,
                    n,
                ).effects);
                if pending_from(e, n) {
                    let j = choose|j: int|
                        n <= j < e.milestones.len() && !(#[trigger] e.milestones[j]).released;
                    assert(!f.milestones[j].released);
                    assert(!f.is_last_pending(m as int));
                    assert(!f.milestones.update(
                        m as int,
                        settled(f.milestones[m as int], now),
                    )[j].released);
                    assert(g == partly_released(e, n, now));
                    assert(u.escrows =~= s.escrows.insert(id, partly_released(e, n, now)));
                } else {
                    assert forall|j: int| 0 <= j < f.milestones.len() && j != m implies (
                    #[trigger] f.milestones[j]).released by {
                        if j >= n {
                            assert(e.milestones[j].released);
                        }
                    }
                    assert(f.is_last_pending(m as int));
                    assert(g.milestones =~= e.release_all(now).milestones) by {
                        assert forall|j: int| 0 <= j < e.milestones.len() implies g.milestones[j]
                            == e.release_all(now).milestones[j] by {
                            if j >= n {
                                assert(e.milestones[j].released);
                            }
                        }
                    }
                    assert(g.all_released());
                    assert(g == e.release_all(now));
                    assert(u.escrows =~= s.escrows.insert(id, e.release_all(now)));
                }
            }
        } else {
            assert(!pending_from(e, n));
            assert(e.milestones[n - 1].released);
            assert(f == e.release_all(now));
        }
    }
}

/// Confirming everything at once is releasing the pending milestones one after
/// the other.
pub proof fn law_confirm_all_is_each(s: State, renter: Address, id: u32, now: u64)
    requires
        s.wf(),
        s.confirm_all_milestones(renter, id, now).1 is Ok,
        !s.escrows[id].all_released(),
    ensures
        s.confirm_all_milestones(renter, id, now).0 == s.demand(renter).release_in_turn(
            id,
            s.escrows[id].milestones.len(),
            now,
        ),
{
    let d = s.demand(renter);
    let e = s.escrows[id];
    lemma_release_in_turn(d, id, e.milestones.len(), now);
    assert(!pending_from(e, e.milestones.len()));
}

} // verus!
