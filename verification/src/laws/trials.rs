//! What each call of jurors, and each call on an open dispute, asks for and
//! what it leaves behind.

use crate::errors::Error;
use crate::jurors::neutral;
use crate::laws::values::{aborts, refuses};
use crate::state::State;
use crate::types::{
    Address, DisputeModel, DisputeOutcome, Effect, EscrowModel, EscrowStatus, Event,
};
use vstd::prelude::*;

verus! {

/// Anyone of sufficient reputation stakes at least the minimum, at once or on
/// top of an earlier stake in the same asset. The stake is collected and adds
/// up, and a juror who is new to the pool is its last.
pub proof fn law_register_juror(s: State, juror: Address, asset: Address, stake: i128)
    requires
        s.wf(),
    ensures
        ({
            let (t, r) = s.register_juror(juror, asset, stake);
            let enough = stake >= s.juror_params.min_stake;
            let trusted = enough && s.reputation_of(juror) >= s.juror_params.min_reputation;
            let known = s.juror_stakes.contains_key(juror);
            let held = if known {
                s.juror_stakes[juror].amount as int
            } else {
                0
            };
            let same = known ==> s.juror_stakes[juror].asset == asset;
            let signed = s.effects.push(Effect::RequireAuth { who: juror });
            &&& refuses(r, Error::InsufficientStake) <==> !enough
            &&& refuses(r, Error::ReputationTooLow) <==> enough && !trusted
            &&& refuses(r, Error::AssetMismatch) <==> trusted && !same
            &&& aborts(r) <==> trusted && same && held + stake > i128::MAX
            &&& r is Ok <==> trusted && same && held + stake <= i128::MAX
            &&& r is Err ==> t == (State { effects: signed, ..s })
            &&& r is Ok ==> {
                &&& t.juror_stakes[juror].asset == asset
                &&& t.juror_stakes[juror].amount == held + stake
                &&& s.juror_pool.contains(juror) ==> t.juror_pool == s.juror_pool
                &&& !s.juror_pool.contains(juror) ==> t.juror_pool == s.juror_pool.push(juror)
                &&& t == (State {
                    juror_stakes: s.juror_stakes.insert(juror, t.juror_stakes[juror]),
                    juror_pool: t.juror_pool,
                    effects: signed.push(
                        Effect::Collect { asset, from: juror, amount: stake },
                    ).push(Effect::Publish { event: Event::JurorJoined { juror, stake } }),
                    ..s
                })
            }
        }),
{
}

/// A juror who sits on no open dispute takes the whole stake back and leaves
/// the pool; the others keep their order.
pub proof fn law_withdraw_juror_stake(s: State, juror: Address)
    requires
        s.wf(),
    ensures
        ({
            let (t, r) = s.withdraw_juror_stake(juror);
            let free = s.active_count(juror) == 0;
            let known = s.juror_stakes.contains_key(juror);
            let info = s.juror_stakes[juror];
            let signed = s.effects.push(Effect::RequireAuth { who: juror });
            &&& refuses(r, Error::JurorHasActiveDispute) <==> !free
            &&& refuses(r, Error::NotAJuror) <==> free && !known
            &&& r is Ok <==> free && known
            &&& r is Err ==> t == (State { effects: signed, ..s })
            &&& r is Ok ==> {
                &&& !t.juror_stakes.contains_key(juror)
                &&& !t.juror_pool.contains(juror)
                &&& forall|k: int|
                    0 <= k < s.juror_pool.len() && s.juror_pool[k] == juror ==> t.juror_pool
                        == #[trigger] s.juror_pool.remove(k)
                &&& !s.juror_pool.contains(juror) ==> t.juror_pool == s.juror_pool
                &&& t == (State {
                    juror_stakes: s.juror_stakes.remove(juror),
                    juror_pool: t.juror_pool,
                    effects: signed.push(
                        Effect::Pay { asset: info.asset, to: juror, amount: info.amount },
                    ).push(
                        Effect::Publish { event: Event::JurorLeft { juror, amount: info.amount } },
                    ),
                    ..s
                })
            }
        }),
{
    let (t, r) = s.withdraw_juror_stake(juror);
    if r is Ok && s.juror_pool.contains(juror) {
        let k = s.juror_pool.index_of(juror);
        assert(s.juror_pool[k] == juror);
        assert(t.juror_pool == s.juror_pool.remove(k));
        if t.juror_pool.contains(juror) {
            let j = choose|j: int| 0 <= j < t.juror_pool.len() && t.juror_pool[j] == juror;
            assert(s.juror_pool[if j < k {
                j
            } else {
                j + 1
            }] == juror);
        }
    }
}

/// Either party, and nobody else, disputes a pending milestone of an active
/// escrow, with evidence of one to 512 bytes, where somebody neutral is in the
/// juror pool and the counters are in range.
#[verifier::spinoff_prover]
pub proof fn law_raise_dispute_accepted(
    s: State,
    caller: Address,
    id: u32,
    i: u32,
    evidence: Seq<u8>,
    now: u64,
)
    requires
        s.wf(),
    ensures
        ({
            let (t, r) = s.raise_dispute(caller, id, i, evidence, now);
            let e = s.escrows[id];
            let m = e.milestones[i as int];
            let shown = 1 <= evidence.len() <= 512;
            let found = shown && s.escrows.contains_key(id);
            let party = found && (caller == e.renter || caller == e.host);
            let named = party && i < e.milestones.len();
            let pending = named && !m.released;
            let active = pending && e.status == EscrowStatus::Active;
            let candidates = s.juror_pool.filter(|a: Address| a != e.renter && a != e.host);
            let n = candidates.len() as int;
            let judged = active && n > 0;
            let in_range = {
                &&& forall|k: int|
                    #![trigger candidates[(id + k) % n]]
                    0 <= k < n && k < s.juror_params.jury_size ==> s.active_count(
                        candidates[(id + k) % n],
                    ) < u32::MAX
                &&& now + s.dispute_voting_window <= u64::MAX
            };
            &&& refuses(r, Error::MissingEvidence) <==> evidence.len() == 0
            &&& refuses(r, Error::StringTooLong) <==> evidence.len() > 512
            &&& refuses(r, Error::EscrowNotFound) <==> shown && !found
            &&& refuses(r, Error::NotAuthorized) <==> found && !party
            &&& refuses(r, Error::InvalidMilestone) <==> party && !named
            &&& refuses(r, Error::AlreadyReleased) <==> named && m.released
            &&& refuses(r, Error::EscrowDisputed) <==> pending && e.status
                == EscrowStatus::Disputed
            &&& refuses(r, Error::InvalidState) <==> pending && e.status != EscrowStatus::Disputed
                && e.status != EscrowStatus::Active
            &&& refuses(r, Error::NoJurorsAvailable) <==> active && !judged
            &&& aborts(r) <==> judged && !in_range
            &&& r is Ok <==> judged && in_range
            &&& r is Err ==> t == (State {
                effects: s.effects.push(Effect::RequireAuth { who: caller }),
                ..s
            })
        }),
{
    let e = s.escrows[id];
    let p = |a: Address| a != e.renter && a != e.host;
    assert(p =~= neutral(e.renter, e.host));
    let candidates = s.juror_pool.filter(p);
    let n = candidates.len() as int;
    let d = s.demand(caller);
    let jury = d.jury(id, e.renter, e.host);
    if n > 0 {
        assert forall|k: int|
            #![trigger candidates[(id + k) % n]]
            0 <= k < n && k < s.juror_params.jury_size implies jury[k] == candidates[(id + k)
            % n] by {
            lemma_turn(id as int, k, n);
        }
        assert forall|k: int| 0 <= k < jury.len() implies d.active_count(#[trigger] jury[k])
            == s.active_count(candidates[(id + k) % n]) by {
            lemma_turn(id as int, k, n);
        }
    }
}

/// Turning on from a remainder is turning on from the number.
proof fn lemma_turn(x: int, k: int, n: int)
    requires
        n > 0,
        0 <= x,
        0 <= k,
    ensures
        (x % n + k) % n == (x + k) % n,
        0 <= (x + k) % n < n,
{
    vstd::arithmetic::div_mod::lemma_add_mod_noop_right(k, x, n);
    vstd::arithmetic::div_mod::lemma_mod_bound(x + k, n);
}

/// A dispute that goes through is recorded as it was opened: by whom, on what,
/// with which evidence and no votes yet; with the slash rate, the arbitration
/// fee and the weighting of that moment, and a deadline one voting window away.
/// The neutral jurors sit in turn, in pool order, from the one whose place is
/// the escrow's ID, round the pool, up to the jury size. Each has one more open
/// dispute. The escrow is frozen. No funds move.
#[verifier::spinoff_prover]
pub proof fn law_raise_dispute_recorded(
    s: State,
    caller: Address,
    id: u32,
    i: u32,
    evidence: Seq<u8>,
    now: u64,
)
    requires
        s.wf(),
        s.raise_dispute(caller, id, i, evidence, now).1 is Ok,
    ensures
        ({
            let (t, r) = s.raise_dispute(caller, id, i, evidence, now);
            let e = s.escrows[id];
            let d = t.disputes[(id, i)];
            let candidates = s.juror_pool.filter(|a: Address| a != e.renter && a != e.host);
            let n = candidates.len() as int;
            &&& r->Ok_0 == id
            &&& d.escrow_id == id
            &&& d.milestone_index == i
            &&& d.opened_by == caller
            &&& d.evidence_uri == evidence
            &&& d.slash_bps == s.juror_params.slash_bps
            &&& d.arbitration_fee_bps == s.juror_params.arbitration_fee_bps
            &&& d.stake_weighted == s.stake_weighted_voting
            &&& d.voting_deadline == now + s.dispute_voting_window
            &&& d.votes_for_renter.len() == 0
            &&& d.votes_for_host.len() == 0
            &&& d.additional_evidence.len() == 0
            &&& !d.resolved
            &&& d.resolved_at == 0
            &&& d.outcome == DisputeOutcome::Pending
            &&& n > 0
            &&& s.juror_params.jury_size <= n ==> d.jurors.len() == s.juror_params.jury_size
            &&& s.juror_params.jury_size > n ==> d.jurors.len() == n
            &&& forall|k: int|
                0 <= k < d.jurors.len() ==> #[trigger] d.jurors[k] == candidates[(id + k) % n]
            &&& forall|a: Address| #[trigger]
                t.active_count(a) == s.active_count(a) + (if d.jurors.contains(a) {
                    1int
                } else {
                    0
                })
            &&& forall|a: Address| #[trigger]
                t.active_disputes.contains_key(a) <==> s.active_disputes.contains_key(a)
                    || d.jurors.contains(a)
            &&& t == (State {
                disputes: s.disputes.insert((id, i), d),
                escrows: s.escrows.insert(
                    id,
                    EscrowModel {
                        status: EscrowStatus::Disputed,
                        dispute_id: Some(i),
                        ever_disputed: true,
                        ..e
                    },
                ),
                active_disputes: t.active_disputes,
                effects: s.effects.push(Effect::RequireAuth { who: caller }).push(
                    Effect::Publish { event: Event::Disputed { id, milestone_index: i, caller } },
                ),
                ..s
            })
        }),
{
    let (t, r) = s.raise_dispute(caller, id, i, evidence, now);
    let e = s.escrows[id];
    let p = |a: Address| a != e.renter && a != e.host;
    assert(p =~= neutral(e.renter, e.host));
    let candidates = s.juror_pool.filter(p);
    let n = candidates.len() as int;
    let d = t.disputes[(id, i)];
    assert forall|k: int| 0 <= k < d.jurors.len() implies #[trigger] d.jurors[k]
        == candidates[(id + k) % n] by {
        lemma_turn(id as int, k, n);
    }
    assert forall|a: Address| #[trigger] t.active_count(a) == s.active_count(a) + (
    if d.jurors.contains(a) {
        1int
    } else {
        0
    }) by {
        if d.jurors.contains(a) {
            let k = choose|k: int| 0 <= k < d.jurors.len() && d.jurors[k] == a;
            assert(s.demand(caller).active_count(d.jurors[k]) < u32::MAX);
        }
    }
}

/// A member of the jury who has not voted yet, and nobody else, votes on an
/// open dispute. The vote is counted last on the side it is for; nothing else
/// changes.
pub proof fn law_vote_dispute(s: State, juror: Address, id: u32, i: u32, vote_for_renter: bool)
    ensures
        ({
            let (t, r) = s.vote_dispute(juror, id, i, vote_for_renter);
            let found = s.disputes.contains_key((id, i));
            let d = s.disputes[(id, i)];
            let open = found && !d.resolved;
            let seated = open && d.jurors.contains(juror);
            let voted = d.votes_for_renter.contains(juror) || d.votes_for_host.contains(juror);
            let signed = s.effects.push(Effect::RequireAuth { who: juror });
            &&& refuses(r, Error::NoDispute) <==> !found
            &&& refuses(r, Error::AlreadyResolved) <==> found && !open
            &&& refuses(r, Error::NotAJuror) <==> open && !seated
            &&& refuses(r, Error::AlreadyVoted) <==> seated && voted
            &&& r is Ok <==> seated && !voted
            &&& r is Err ==> t == (State { effects: signed, ..s })
            &&& r is Ok && vote_for_renter ==> t == (State {
                disputes: s.disputes.insert(
                    (id, i),
                    DisputeModel { votes_for_renter: d.votes_for_renter.push(juror), ..d },
                ),
                effects: signed,
                ..s
            })
            &&& r is Ok && !vote_for_renter ==> t == (State {
                disputes: s.disputes.insert(
                    (id, i),
                    DisputeModel { votes_for_host: d.votes_for_host.push(juror), ..d },
                ),
                effects: signed,
                ..s
            })
        }),
{
}

/// Either party, and nobody else, attaches up to ten further pieces of
/// evidence, each of one to 512 bytes, to an open dispute. They are kept in
/// order; nothing else changes.
pub proof fn law_add_dispute_evidence(
    s: State,
    caller: Address,
    id: u32,
    i: u32,
    evidence: Seq<u8>,
)
    ensures
        ({
            let (t, r) = s.add_dispute_evidence(caller, id, i, evidence);
            let e = s.escrows[id];
            let d = s.disputes[(id, i)];
            let shown = 1 <= evidence.len() <= 512;
            let found = shown && s.escrows.contains_key(id);
            let party = found && (caller == e.renter || caller == e.host);
            let disputed = party && s.disputes.contains_key((id, i));
            let open = disputed && !d.resolved;
            let signed = s.effects.push(Effect::RequireAuth { who: caller });
            &&& refuses(r, Error::MissingEvidence) <==> evidence.len() == 0
            &&& refuses(r, Error::StringTooLong) <==> evidence.len() > 512
            &&& refuses(r, Error::EscrowNotFound) <==> shown && !found
            &&& refuses(r, Error::NotAuthorized) <==> found && !party
            &&& refuses(r, Error::NoDispute) <==> party && !disputed
            &&& refuses(r, Error::AlreadyResolved) <==> disputed && !open
            &&& refuses(r, Error::TooMuchEvidence) <==> open && d.additional_evidence.len() >= 10
            &&& r is Ok <==> open && d.additional_evidence.len() < 10
            &&& r is Err ==> t == (State { effects: signed, ..s })
            &&& r is Ok ==> t == (State {
                disputes: s.disputes.insert(
                    (id, i),
                    DisputeModel {
                        additional_evidence: d.additional_evidence.push(evidence),
                        ..d
                    },
                ),
                effects: signed,
                ..s
            })
        }),
{
}

/// Both parties together, and nobody else, move the deadline of an open dispute
/// later by up to a year at a time, by exactly the time asked for. Nothing else
/// changes.
pub proof fn law_extend_dispute_deadline(
    s: State,
    renter: Address,
    host: Address,
    id: u32,
    i: u32,
    extra: u64,
)
    ensures
        ({
            let (t, r) = s.extend_dispute_deadline(renter, host, id, i, extra);
            let found = s.escrows.contains_key(id);
            let e = s.escrows[id];
            let d = s.disputes[(id, i)];
            let f = t.disputes[(id, i)];
            let both = found && e.renter == renter && e.host == host;
            let bounded = both && 1 <= extra <= 31_536_000;
            let disputed = bounded && s.disputes.contains_key((id, i));
            let open = disputed && !d.resolved;
            let signed = s.effects.push(Effect::RequireAuth { who: renter }).push(
                Effect::RequireAuth { who: host },
            );
            &&& refuses(r, Error::EscrowNotFound) <==> !found
            &&& refuses(r, Error::NotAuthorized) <==> found && !both
            &&& refuses(r, Error::InvalidAmount) <==> both && !bounded || open && d.voting_deadline
                + extra > u64::MAX
            &&& refuses(r, Error::NoDispute) <==> bounded && !disputed
            &&& refuses(r, Error::AlreadyResolved) <==> disputed && !open
            &&& r is Ok <==> open && d.voting_deadline + extra <= u64::MAX
            &&& r is Err ==> t == (State { effects: signed, ..s })
            &&& r is Ok ==> {
                &&& f.voting_deadline == d.voting_deadline + extra
                &&& f == (DisputeModel { voting_deadline: f.voting_deadline, ..d })
                &&& t == (State {
                    disputes: s.disputes.insert((id, i), f),
                    effects: signed,
                    ..s
                })
            }
        }),
{
}

} // verus!
