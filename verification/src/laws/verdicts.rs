//! How a dispute is decided, and what the decision pays, takes and leaves
//! behind.

use crate::errors::Error;
use crate::incentives::{
    cut_of, holds, incentives_fit, lemma_reward_bounds, reward, slash_pool, stake_of, sum_over,
};
use crate::laws::releases::{chargeable, is_fee, law_fee_is_exact, law_payout, transfers};
use crate::laws::sums::lemma_sum_same;
use crate::laws::trials::law_raise_dispute_recorded;
use crate::laws::values::{aborts, refuses};
use crate::payout::{bps_of, lemma_bps_bounds};
use crate::state::State;
use crate::types::{
    Address, DisputeModel, DisputeOutcome, Effect, EscrowModel, EscrowStatus, Event, MilestoneModel,
};
use vstd::prelude::*;

verus! {

/// The majority of the recorded votes decides, and a tie goes to the host.
/// Where votes are weighted, the side whose voters have more at stake decides,
/// and equal stakes go to the host.
pub proof fn law_majority_decides(s: State, id: u32, i: u32, now: u64)
    requires
        s.resolve_dispute(id, i, now).1 is Ok,
    ensures
        ({
            let d = s.disputes[(id, i)];
            let outcome = s.resolve_dispute(id, i, now).0.disputes[(id, i)].outcome;
            let staked = |a: Address|
                if s.juror_stakes.contains_key(a) {
                    s.juror_stakes[a].amount as int
                } else {
                    0
                };
            let renter_votes = if d.stake_weighted {
                sum_over(d.votes_for_renter, staked)
            } else {
                d.votes_for_renter.len() as int
            };
            let host_votes = if d.stake_weighted {
                sum_over(d.votes_for_host, staked)
            } else {
                d.votes_for_host.len() as int
            };
            &&& renter_votes > host_votes <==> outcome == DisputeOutcome::RenterWins
            &&& renter_votes <= host_votes <==> outcome == DisputeOutcome::HostWins
        }),
{
    let staked = |a: Address|
        if s.juror_stakes.contains_key(a) {
            s.juror_stakes[a].amount as int
        } else {
            0
        };
    assert(staked =~= stake_of(s.juror_stakes));
}

/// Where votes are not weighted, stakes do not matter: the same votes decide
/// the same way whatever anyone has staked.
pub proof fn law_one_juror_one_vote(s: State, t: State, id: u32, i: u32, now: u64)
    requires
        s.resolve_dispute(id, i, now).1 is Ok,
        t.resolve_dispute(id, i, now).1 is Ok,
        t.disputes[(id, i)].votes_for_renter.len() == s.disputes[(id, i)].votes_for_renter.len(),
        t.disputes[(id, i)].votes_for_host.len() == s.disputes[(id, i)].votes_for_host.len(),
        !s.disputes[(id, i)].stake_weighted,
        !t.disputes[(id, i)].stake_weighted,
    ensures
        s.resolve_dispute(id, i, now).0.disputes[(id, i)].outcome == t.resolve_dispute(
            id,
            i,
            now,
        ).0.disputes[(id, i)].outcome,
{
    law_majority_decides(s, id, i, now);
    law_majority_decides(t, id, i, now);
}

/// The arbitration fee is the recorded rate on the disputed amount, exactly, in
/// whole units, and each juror's share an even part of it, in whole units.
proof fn lemma_costs(d: DisputeModel, amount: int, cost: int, share: int)
    requires
        d.wf(),
        amount >= 0,
        10_000 * cost <= amount * d.arbitration_fee_bps < 10_000 * (cost + 1),
        share * d.jurors.len() <= cost < (share + 1) * d.jurors.len(),
    ensures
        cost == d.arbitration_fee(amount),
        share == d.juror_share(amount),
        0 <= cost <= amount,
        0 <= share <= cost,
{
    let n = d.jurors.len() as int;
    lemma_bps_bounds(amount, d.arbitration_fee_bps as int);
    assert(share == cost / n && 0 <= share <= cost) by (nonlinear_arith)
        requires
            share * n <= cost < (share + 1) * n,
            n > 0,
            cost >= 0,
    ;
}

/// What settling the dispute on milestone `i` leaves on the escrow, where `at`
/// is when the host was paid, or 0: the milestone is done, the others stay, the
/// escrow is no longer disputed and complete where this was the last.
pub open spec fn settled_one(e: EscrowModel, f: EscrowModel, i: int, at: u64) -> bool {
    let last = forall|j: int|
        0 <= j < e.milestones.len() && j != i ==> (#[trigger] e.milestones[j]).released;
    &&& f.milestones.len() == e.milestones.len()
    &&& f.milestones[i] == (MilestoneModel { released: true, released_at: at, ..e.milestones[i] })
    &&& forall|j: int|
        0 <= j < e.milestones.len() && j != i ==> #[trigger] f.milestones[j] == e.milestones[j]
    &&& last ==> f.status == EscrowStatus::Completed
    &&& !last ==> f.status == EscrowStatus::Active
    &&& f.dispute_id is None
    &&& f == (EscrowModel {
        milestones: f.milestones,
        status: f.status,
        dispute_id: f.dispute_id,
        ..e
    })
}

/// What settling `d` leaves of the assignments: each juror has one open dispute
/// less.
pub open spec fn freed(s: State, t: State, d: DisputeModel) -> bool {
    &&& forall|a: Address| #[trigger]
        t.active_disputes.contains_key(a) <==> s.active_disputes.contains_key(a)
            || d.jurors.contains(a)
    &&& forall|a: Address| #[trigger]
        t.active_count(a) == (if d.jurors.contains(a) && s.active_count(a) > 0 {
            s.active_count(a) - 1
        } else {
            s.active_count(a) as int
        })
}

/// A decision pays each juror the same share of the arbitration fee, and the
/// winning party the disputed amount less the whole arbitration fee, from which
/// the protocol fee is taken. The winner gains two points, the loser loses one.
/// The dispute is closed with its votes as they were, its milestone is done,
/// and its jurors are free. Nothing else but stakes changes.
#[verifier::spinoff_prover]
pub proof fn law_decision_pays(
    s: State,
    id: u32,
    i: u32,
    now: u64,
    cost: int,
    share: int,
    fee: int,
)
    requires
        s.wf(),
        s.resolve_dispute(id, i, now).1 is Ok,
        ({
            let d = s.disputes[(id, i)];
            let e = s.escrows[id];
            let amount = e.milestones[i as int].amount;
            let outcome = s.resolve_dispute(id, i, now).0.disputes[(id, i)].outcome;
            &&& 10_000 * cost <= amount * d.arbitration_fee_bps < 10_000 * (cost + 1)
            &&& share * d.jurors.len() <= cost < (share + 1) * d.jurors.len()
            &&& outcome == DisputeOutcome::RenterWins ==> is_fee(s, e.renter, amount - cost, fee)
            &&& outcome == DisputeOutcome::HostWins ==> is_fee(s, e.host, amount - cost, fee)
        }),
    ensures
        ({
            let t = s.resolve_dispute(id, i, now).0;
            let d = s.disputes[(id, i)];
            let e = s.escrows[id];
            let c = t.disputes[(id, i)];
            let f = t.escrows[id];
            let amount = e.milestones[i as int].amount;
            let renter_wins = c.outcome == DisputeOutcome::RenterWins;
            let (winner, loser) = if renter_wins {
                (e.renter, e.host)
            } else {
                (e.host, e.renter)
            };
            &&& c == (DisputeModel { resolved: true, resolved_at: now, outcome: c.outcome, ..d })
            &&& renter_wins ==> settled_one(e, f, i as int, 0)
            &&& !renter_wins ==> settled_one(e, f, i as int, now)
            &&& freed(s, t, d)
            &&& t.reputation.dom() == s.reputation.dom().insert(e.renter).insert(e.host)
            &&& t.reputation[winner] == s.reputation_of(winner) + 2
            &&& t.reputation[loser] == s.reputation_of(loser) - 1
            &&& forall|a: Address|
                a != e.renter && a != e.host && s.reputation.contains_key(a)
                    ==> #[trigger] t.reputation[a] == s.reputation[a]
            &&& t.effects == s.effects + (if share > 0 {
                Seq::new(
                    d.jurors.len(),
                    |k: int|
                        Effect::Pay { asset: e.asset, to: d.jurors[k], amount: share as i128 },
                )
            } else {
                Seq::empty()
            }) + transfers(s, e.asset, winner, amount - cost, fee) + seq![
                Effect::Publish {
                    event: Event::Resolved { id, milestone_index: i, recipient: winner },
                },
            ] + (if f.status == EscrowStatus::Completed {
                seq![Effect::Publish { event: Event::Complete { id } }]
            } else {
                Seq::empty()
            })
            &&& t == (State {
                disputes: s.disputes.insert((id, i), c),
                escrows: s.escrows.insert(id, f),
                active_disputes: t.active_disputes,
                reputation: t.reputation,
                juror_stakes: t.juror_stakes,
                effects: t.effects,
                ..s
            })
        }),
{
    let t = s.resolve_dispute(id, i, now).0;
    let d = s.disputes[(id, i)];
    let e = s.escrows[id];
    let amount = e.milestones[i as int].amount as int;
    let renter_wins = s.renter_wins(d);
    let (winner, loser) = if renter_wins {
        (e.renter, e.host)
    } else {
        (e.host, e.renter)
    };
    assert(e.milestones[i as int].amount > 0);
    lemma_costs(d, amount, cost, share);
    let paid = s.pay_jurors(e.asset, d.jurors, d.juror_share(amount));
    law_payout(paid, e.asset, winner, amount - cost, fee);
    let shares = if share > 0 {
        Seq::new(
            d.jurors.len(),
            |k: int| Effect::Pay { asset: e.asset, to: d.jurors[k], amount: share as i128 },
        )
    } else {
        Seq::empty()
    };
    assert(paid.effects =~= s.effects + shares);
    let settled = transfers(s, e.asset, winner, amount - cost, fee);
    let announced = Effect::Publish {
        event: Event::Resolved { id, milestone_index: i, recipient: winner },
    };
    let done = Effect::Publish { event: Event::Complete { id } };
    if t.escrows[id].status == EscrowStatus::Completed {
        assert(t.effects =~= s.effects + shares + settled + seq![announced] + seq![done]);
    } else {
        assert(t.effects =~= s.effects + shares + settled + seq![announced] + Seq::empty());
    }
    assert(t.reputation.dom() =~= s.reputation.dom().insert(e.renter).insert(e.host));
}

/// A decision takes from each losing juror exactly the recorded slash rate of
/// the stake, in whole units. Each winning juror with a stake gains the same as
/// every other with a stake in that asset: an even part, in whole units, of
/// what was taken in that asset. Nobody else's stake changes, and no stake
/// changes its asset.
#[verifier::spinoff_prover]
pub proof fn law_decision_slashes(s: State, id: u32, i: u32, now: u64, a: Address)
    requires
        s.wf(),
        s.resolve_dispute(id, i, now).1 is Ok,
        s.juror_stakes.contains_key(a),
    ensures
        ({
            let t = s.resolve_dispute(id, i, now).0;
            let d = s.disputes[(id, i)];
            let renter_wins = t.disputes[(id, i)].outcome == DisputeOutcome::RenterWins;
            let (winners, losers) = if renter_wins {
                (d.votes_for_renter, d.votes_for_host)
            } else {
                (d.votes_for_host, d.votes_for_renter)
            };
            let asset = s.juror_stakes[a].asset;
            let before = s.juror_stakes[a].amount;
            let after = t.juror_stakes[a].amount;
            let taken = sum_over(
                losers,
                |b: Address|
                    if s.juror_stakes.contains_key(b) && s.juror_stakes[b].asset == asset {
                        s.juror_stakes[b].amount - t.juror_stakes[b].amount
                    } else {
                        0
                    },
            );
            let sharers = sum_over(
                winners,
                |b: Address|
                    if s.juror_stakes.contains_key(b) && s.juror_stakes[b].asset == asset {
                        1
                    } else {
                        0
                    },
            );
            &&& t.juror_stakes.dom() == s.juror_stakes.dom()
            &&& t.juror_stakes[a].asset == asset
            &&& losers.contains(a) ==> (before - after) * 10_000 <= before * d.slash_bps < (before
                - after + 1) * 10_000
            &&& winners.contains(a) ==> sharers > 0 && (after - before) * sharers <= taken < (after
                - before + 1) * sharers
            &&& !winners.contains(a) && !losers.contains(a) ==> after == before
        }),
{
    let t = s.resolve_dispute(id, i, now).0;
    let d = s.disputes[(id, i)];
    let stakes = s.juror_stakes;
    let renter_wins = s.renter_wins(d);
    let winners = d.winning_votes(renter_wins);
    let losers = d.losing_votes(renter_wins);
    let asset = stakes[a].asset;
    assert(t.juror_stakes.dom() =~= stakes.dom());
    assert forall|b: Address| losers.contains(b) && stakes.contains_key(b) implies stakes[b].amount
        - (#[trigger] t.juror_stakes[b]).amount == bps_of(
        stakes[b].amount as int,
        d.slash_bps as int,
    ) by {
        lemma_bps_bounds(stakes[b].amount as int, d.slash_bps as int);
    }
    let f = |b: Address|
        if s.juror_stakes.contains_key(b) && s.juror_stakes[b].asset == asset {
            s.juror_stakes[b].amount - t.juror_stakes[b].amount
        } else {
            0
        };
    let h = |b: Address|
        if s.juror_stakes.contains_key(b) && s.juror_stakes[b].asset == asset {
            1
        } else {
            0
        };
    assert forall|b: Address| #[trigger] losers.contains(b) implies f(b) == cut_of(
        stakes,
        d.slash_bps,
        asset,
    )(b) by {
        assert(stakes.contains_key(b) ==> stakes[b].amount - t.juror_stakes[b].amount
            == bps_of(stakes[b].amount as int, d.slash_bps as int));
    }
    lemma_sum_same(losers, f, cut_of(stakes, d.slash_bps, asset));
    assert(h =~= holds(stakes, asset));
    lemma_reward_bounds(stakes, winners, losers, d.slash_bps, asset);
    if winners.contains(a) {
        let k = choose|k: int| 0 <= k < winners.len() && winners[k] == a;
        assert(stakes.contains_key(winners[k]));
        assert(!losers.contains(a)) by {
            assert(d.votes_for_renter.contains(a) || d.votes_for_host.contains(a));
        }
        lemma_sharer(winners, h, k);
        let n = sum_over(winners, h);
        let p = slash_pool(stakes, losers, d.slash_bps, asset);
        let gain = reward(stakes, winners, losers, d.slash_bps, asset);
        assert(gain * n <= p < (gain + 1) * n) by (nonlinear_arith)
            requires
                gain == p / n,
                n > 0,
        ;
    }
}

/// The rate that losing jurors are slashed by is the one that was set when the
/// dispute was raised, whatever was set since: `s` is the contract before the
/// dispute, `u` the contract before its decision, and the record of the dispute
/// keeps its rate in between.
pub proof fn law_slashed_as_raised(
    s: State,
    caller: Address,
    id: u32,
    i: u32,
    evidence: Seq<u8>,
    now: u64,
    u: State,
    at: u64,
    a: Address,
)
    requires
        s.wf(),
        u.wf(),
        s.raise_dispute(caller, id, i, evidence, now).1 is Ok,
        u.disputes[(id, i)].slash_bps == s.raise_dispute(
            caller,
            id,
            i,
            evidence,
            now,
        ).0.disputes[(id, i)].slash_bps,
        u.resolve_dispute(id, i, at).1 is Ok,
        u.juror_stakes.contains_key(a),
    ensures
        ({
            let t = u.resolve_dispute(id, i, at).0;
            let d = u.disputes[(id, i)];
            let rate = s.juror_params.slash_bps;
            let cut = u.juror_stakes[a].amount - t.juror_stakes[a].amount;
            t.disputes[(id, i)].outcome == DisputeOutcome::RenterWins && d.votes_for_host.contains(
                a,
            ) || t.disputes[(id, i)].outcome == DisputeOutcome::HostWins
                && d.votes_for_renter.contains(a) ==> cut * 10_000 <= u.juror_stakes[a].amount
                * rate < (cut + 1) * 10_000
        }),
{
    law_raise_dispute_recorded(s, caller, id, i, evidence, now);
    law_decision_slashes(u, id, i, at, a);
}

/// A member that counts makes the count positive.
proof fn lemma_sharer(list: Seq<Address>, h: spec_fn(Address) -> int, k: int)
    requires
        0 <= k < list.len(),
        h(list[k]) == 1,
        forall|a: Address| #[trigger] h(a) >= 0,
    ensures
        sum_over(list, h) > 0,
    decreases list.len(),
{
    let rest = list.drop_last();
    if k < list.len() - 1 {
        lemma_sharer(rest, h, k);
    } else {
        lemma_sum_nonneg(rest, h);
    }
}

proof fn lemma_sum_nonneg(list: Seq<Address>, h: spec_fn(Address) -> int)
    requires
        forall|a: Address| #[trigger] h(a) >= 0,
    ensures
        sum_over(list, h) >= 0,
    decreases list.len(),
{
    if list.len() > 0 {
        lemma_sum_nonneg(list.drop_last(), h);
    }
}

/// What a slash of `bps` ten-thousandths takes from the stakes of `losers` in
/// `asset`, each in whole units.
pub open spec fn taken_in(s: State, losers: Seq<Address>, bps: u32, asset: Address) -> int {
    sum_over(
        losers,
        |a: Address|
            if s.juror_stakes.contains_key(a) && s.juror_stakes[a].asset == asset {
                s.juror_stakes[a].amount * bps / 10_000
            } else {
                0
            },
    )
}

/// How many of `winners` have a stake in `asset`.
pub open spec fn sharers_in(s: State, winners: Seq<Address>, asset: Address) -> int {
    sum_over(
        winners,
        |a: Address|
            if s.juror_stakes.contains_key(a) && s.juror_stakes[a].asset == asset {
                1
            } else {
                0
            },
    )
}

/// Whether the stakes of `winners` and `losers` stay in range when the losers
/// are slashed by `bps` and the winners share what is taken.
pub open spec fn stakes_in_range(
    s: State,
    winners: Seq<Address>,
    losers: Seq<Address>,
    bps: u32,
) -> bool {
    &&& forall|k: int|
        #![trigger losers[k]]
        0 <= k < losers.len() && s.juror_stakes.contains_key(losers[k]) ==> {
            &&& s.juror_stakes[losers[k]].amount * bps <= i128::MAX
            &&& taken_in(s, losers, bps, s.juror_stakes[losers[k]].asset) <= i128::MAX
        }
    &&& forall|k: int|
        #![trigger winners[k]]
        0 <= k < winners.len() && s.juror_stakes.contains_key(winners[k]) ==> {
            let asset = s.juror_stakes[winners[k]].asset;
            s.juror_stakes[winners[k]].amount + taken_in(s, losers, bps, asset) / sharers_in(
                s,
                winners,
                asset,
            ) <= i128::MAX
        }
}

proof fn lemma_stakes_in_range(s: State, winners: Seq<Address>, losers: Seq<Address>, bps: u32)
    ensures
        stakes_in_range(s, winners, losers, bps) <==> incentives_fit(
            s.juror_stakes,
            winners,
            losers,
            bps,
        ),
{
    let stakes = s.juror_stakes;
    assert forall|asset: Address|
        #![trigger taken_in(s, losers, bps, asset)]
        #![trigger slash_pool(stakes, losers, bps, asset)]
        taken_in(s, losers, bps, asset) == slash_pool(stakes, losers, bps, asset) by {
        let f = |a: Address|
            if s.juror_stakes.contains_key(a) && s.juror_stakes[a].asset == asset {
                s.juror_stakes[a].amount * bps / 10_000
            } else {
                0
            };
        assert(f =~= cut_of(stakes, bps, asset));
    }
    assert forall|asset: Address|
        #![trigger sharers_in(s, winners, asset)]
        #![trigger holds(stakes, asset)]
        sharers_in(s, winners, asset) == sum_over(winners, holds(stakes, asset)) by {
        let f = |a: Address|
            if s.juror_stakes.contains_key(a) && s.juror_stakes[a].asset == asset {
                1
            } else {
                0
            };
        assert(f =~= holds(stakes, asset));
    }
    assert forall|k: int|
        #![trigger winners[k]]
        0 <= k < winners.len() && stakes.contains_key(winners[k]) implies reward(
        stakes,
        winners,
        losers,
        bps,
        stakes[winners[k]].asset,
    ) == taken_in(s, losers, bps, stakes[winners[k]].asset) / sharers_in(
        s,
        winners,
        stakes[winners[k]].asset,
    ) by {
        lemma_sharer(winners, holds(stakes, stakes[winners[k]].asset), k);
    }
}

/// What these words mean: each loser adds the whole units of the rate on the
/// stake, each winner counts once.
pub proof fn law_taken_and_shared(s: State, list: Seq<Address>, a: Address, bps: u32, asset: Address)
    ensures
        taken_in(s, Seq::empty(), bps, asset) == 0,
        sharers_in(s, Seq::empty(), asset) == 0,
        ({
            let cut = taken_in(s, list.push(a), bps, asset) - taken_in(s, list, bps, asset);
            let one = sharers_in(s, list.push(a), asset) - sharers_in(s, list, asset);
            if s.juror_stakes.contains_key(a) && s.juror_stakes[a].asset == asset {
                &&& 10_000 * cut <= s.juror_stakes[a].amount * bps < 10_000 * (cut + 1)
                &&& one == 1
            } else {
                cut == 0 && one == 0
            }
        }),
{
    assert(list.push(a).drop_last() =~= list);
}

/// Anyone settles a dispute by its votes once there is one for every seat on
/// the jury, as long as the weights, the fees, the two reputations and the
/// stakes are in range.
#[verifier::spinoff_prover]
pub proof fn law_decision_accepted(s: State, id: u32, i: u32, now: u64)
    requires
        s.wf(),
    ensures
        ({
            let (t, r) = s.resolve_dispute(id, i, now);
            let d = s.disputes[(id, i)];
            let e = s.escrows[id];
            let disputed = s.disputes.contains_key((id, i));
            let open = disputed && !d.resolved;
            let complete = open && d.votes_for_renter.len() + d.votes_for_host.len()
                >= d.jurors.len();
            let found = complete && s.escrows.contains_key(id);
            let named = found && i < e.milestones.len();
            let amount = e.milestones[i as int].amount;
            let staked = |a: Address|
                if s.juror_stakes.contains_key(a) {
                    s.juror_stakes[a].amount as int
                } else {
                    0
                };
            let renter_wins = if d.stake_weighted {
                sum_over(d.votes_for_renter, staked) > sum_over(d.votes_for_host, staked)
            } else {
                d.votes_for_renter.len() > d.votes_for_host.len()
            };
            let winner = if renter_wins {
                e.renter
            } else {
                e.host
            };
            let loser = if renter_wins {
                e.host
            } else {
                e.renter
            };
            let in_range = {
                &&& d.stake_weighted ==> sum_over(d.votes_for_renter, staked) <= i128::MAX
                    && sum_over(d.votes_for_host, staked) <= i128::MAX
                &&& amount * d.arbitration_fee_bps <= i128::MAX
                &&& chargeable(s, winner, amount - amount * d.arbitration_fee_bps / 10_000)
                &&& s.reputation_of(winner) + 2 <= i32::MAX
                &&& s.reputation_of(loser) - 1 >= i32::MIN
                &&& renter_wins ==> stakes_in_range(
                    s,
                    d.votes_for_renter,
                    d.votes_for_host,
                    d.slash_bps,
                )
                &&& !renter_wins ==> stakes_in_range(
                    s,
                    d.votes_for_host,
                    d.votes_for_renter,
                    d.slash_bps,
                )
            };
            &&& refuses(r, Error::NoDispute) <==> !disputed
            &&& refuses(r, Error::AlreadyResolved) <==> disputed && !open
            &&& refuses(r, Error::VotingIncomplete) <==> open && !complete
            &&& refuses(r, Error::EscrowNotFound) <==> complete && !found
            &&& aborts(r) <==> found && !(named && in_range)
            &&& r is Ok <==> named && in_range
            &&& r is Err ==> t == s
        }),
{
    let d = s.disputes[(id, i)];
    let e = s.escrows[id];
    let staked = |a: Address|
        if s.juror_stakes.contains_key(a) {
            s.juror_stakes[a].amount as int
        } else {
            0
        };
    assert(staked =~= stake_of(s.juror_stakes));
    lemma_stakes_in_range(s, d.votes_for_renter, d.votes_for_host, d.slash_bps);
    lemma_stakes_in_range(s, d.votes_for_host, d.votes_for_renter, d.slash_bps);
    if s.escrows.contains_key(id) && s.disputes.contains_key((id, i)) && i < e.milestones.len() {
        let amount = e.milestones[i as int].amount as int;
        assert(e.milestones[i as int].amount > 0);
        assert(d.wf());
        lemma_bps_bounds(amount, d.arbitration_fee_bps as int);
        lemma_chargeable(s, e.renter, amount - d.arbitration_fee(amount));
        lemma_chargeable(s, e.host, amount - d.arbitration_fee(amount));
    }
}

/// Charging is in range exactly where the payout is.
proof fn lemma_chargeable(s: State, to: Address, amount: int)
    requires
        0 <= amount <= i128::MAX,
    ensures
        chargeable(s, to, amount) <==> s.payout_fits(to, amount),
{
    law_fee_is_exact(s, to, amount);
}

/// Anyone splits the amount of an open dispute from its deadline on, and not a
/// second earlier, as long as votes are missing. The renter is paid half, in
/// whole units, and the host the rest, each less the protocol fee. Neither a
/// reputation nor a stake moves, and nobody is paid for judging.
#[verifier::spinoff_prover]
pub proof fn law_split(
    s: State,
    id: u32,
    i: u32,
    now: u64,
    half: int,
    renter_fee: int,
    host_fee: int,
)
    requires
        s.wf(),
        ({
            let e = s.escrows[id];
            let amount = e.milestones[i as int].amount;
            &&& 2 * half <= amount < 2 * half + 2
            &&& is_fee(s, e.renter, half, renter_fee)
            &&& is_fee(s, e.host, amount - half, host_fee)
        }),
    ensures
        ({
            let (t, r) = s.force_resolve_stale_dispute(id, i, now);
            let d = s.disputes[(id, i)];
            let e = s.escrows[id];
            let c = t.disputes[(id, i)];
            let f = t.escrows[id];
            let amount = e.milestones[i as int].amount;
            let disputed = s.disputes.contains_key((id, i));
            let open = disputed && !d.resolved;
            let due = open && now >= d.voting_deadline;
            let stale = due && d.votes_for_renter.len() + d.votes_for_host.len() < d.jurors.len();
            let found = stale && s.escrows.contains_key(id);
            let in_range = found && i < e.milestones.len() && chargeable(s, e.renter, half)
                && chargeable(s, e.host, amount - half);
            &&& refuses(r, Error::NoDispute) <==> !disputed
            &&& refuses(r, Error::AlreadyResolved) <==> disputed && !open
            &&& refuses(r, Error::TooEarly) <==> open && !due
            &&& refuses(r, Error::InvalidState) <==> due && !stale
            &&& refuses(r, Error::EscrowNotFound) <==> stale && !found
            &&& aborts(r) <==> found && !in_range
            &&& r is Ok <==> in_range
            &&& r is Err ==> t == s
            &&& r is Ok ==> {
                &&& c == (DisputeModel {
                    resolved: true,
                    resolved_at: now,
                    outcome: DisputeOutcome::Split,
                    ..d
                })
                &&& settled_one(e, f, i as int, now)
                &&& freed(s, t, d)
                &&& t == (State {
                    disputes: s.disputes.insert((id, i), c),
                    escrows: s.escrows.insert(id, f),
                    active_disputes: t.active_disputes,
                    effects: s.effects + transfers(s, e.asset, e.renter, half, renter_fee)
                        + transfers(s, e.asset, e.host, amount - half, host_fee) + seq![
                        Effect::Publish { event: Event::Stale { id, milestone_index: i } },
                    ] + (if f.status == EscrowStatus::Completed {
                        seq![Effect::Publish { event: Event::Complete { id } }]
                    } else {
                        Seq::empty()
                    }),
                    ..s
                })
            }
        }),
{
    let (t, r) = s.force_resolve_stale_dispute(id, i, now);
    let e = s.escrows[id];
    let amount = e.milestones[i as int].amount as int;
    assert(half == amount / 2);
    if s.escrows.contains_key(id) && i < e.milestones.len() {
        assert(e.milestones[i as int].amount > 0);
        law_payout(s, e.asset, e.renter, half, renter_fee);
        let first = s.pay_out(e.asset, e.renter, half);
        law_payout(s, e.asset, e.host, amount - half, host_fee);
        law_payout(first, e.asset, e.host, amount - half, host_fee);
        if r is Ok {
            let paid = s.effects + transfers(s, e.asset, e.renter, half, renter_fee) + transfers(
                s,
                e.asset,
                e.host,
                amount - half,
                host_fee,
            );
            let announced = Effect::Publish { event: Event::Stale { id, milestone_index: i } };
            let done = Effect::Publish { event: Event::Complete { id } };
            if t.escrows[id].status == EscrowStatus::Completed {
                assert(t.effects =~= paid + seq![announced] + seq![done]);
            } else {
                assert(t.effects =~= paid + seq![announced] + Seq::empty());
            }
        }
    }
}

} // verus!
