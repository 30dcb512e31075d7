//! What each call on a funded escrow asks for and what it pays.

use crate::errors::Error;
use crate::laws::values::{aborts, refuses};
use crate::lifecycle::lemma_amount_sum_bounds;
use crate::release::lemma_release_completes;
use crate::state::{pending_sum, State};
use crate::types::{Address, Effect, EscrowModel, EscrowStatus, Event, MilestoneModel};
use vstd::prelude::*;

verus! {

/// Whether `fee` is what the protocol keeps of a payout of `amount` to `to`:
/// the configured ten-thousandths of it in whole units, and nothing of a payout
/// to an exempt recipient or where no fee is configured.
pub open spec fn is_fee(s: State, to: Address, amount: int, fee: int) -> bool {
    if s.fee_config is None || (s.fee_exempt.contains_key(to) && s.fee_exempt[to]) {
        fee == 0
    } else {
        10_000 * fee <= amount * s.fee_config->0.bps < 10_000 * (fee + 1)
    }
}

/// Whether the fee on a payout of `amount` to `to` is in range.
pub open spec fn chargeable(s: State, to: Address, amount: int) -> bool {
    s.fee_config is None || (s.fee_exempt.contains_key(to) && s.fee_exempt[to]) || amount
        * s.fee_config->0.bps <= i128::MAX
}

/// The transfers by which `amount`, less `fee`, is paid to `to`.
pub open spec fn transfers(s: State, asset: Address, to: Address, amount: int, fee: int) -> Seq<
    Effect,
> {
    let net = Effect::Pay { asset, to, amount: (amount - fee) as i128 };
    if fee > 0 {
        seq![Effect::Pay { asset, to: s.fee_config->0.treasury, amount: fee as i128 }, net]
    } else {
        seq![net]
    }
}

/// A payout to a recipient who is not exempt is charged the configured rate,
/// exactly, in whole units; with no fee configured or for an exempt recipient
/// nothing is charged.
pub proof fn law_fee_is_exact(s: State, to: Address, amount: int)
    requires
        amount >= 0,
    ensures
        s.fee_config matches Some(c) ==> !(s.fee_exempt.contains_key(to) && s.fee_exempt[to]) ==> {
            &&& s.fee_on(to, amount) * 10_000 <= amount * c.bps
            &&& amount * c.bps < (s.fee_on(to, amount) + 1) * 10_000
            &&& s.payout_fits(to, amount) <==> amount * c.bps <= i128::MAX
        },
        s.fee_exempt.contains_key(to) && s.fee_exempt[to] ==> s.fee_on(to, amount) == 0
            && (amount <= i128::MAX ==> s.payout_fits(to, amount)),
        s.fee_config is None ==> s.fee_on(to, amount) == 0 && (amount <= i128::MAX
            ==> s.payout_fits(to, amount)),
{
    assert(amount * 0 == 0) by (nonlinear_arith);
}

/// What a fee is: stated on the configuration, whatever the amount.
pub proof fn law_fee_meaning(s: State, to: Address, amount: int, fee: int)
    ensures
        s.fee_config matches Some(c) ==> !(s.fee_exempt.contains_key(to) && s.fee_exempt[to]) ==> {
            &&& is_fee(s, to, amount, fee) <==> 10_000 * fee <= amount * c.bps < 10_000 * fee
                + 10_000
            &&& chargeable(s, to, amount) <==> amount * c.bps <= i128::MAX
        },
        s.fee_exempt.contains_key(to) && s.fee_exempt[to] || s.fee_config is None ==> {
            &&& is_fee(s, to, amount, fee) <==> fee == 0
            &&& chargeable(s, to, amount)
        },
{
}

/// A payout asks for the fee to go to the treasury, where there is one, and for
/// the rest to go to the recipient; nothing else changes.
pub proof fn law_payout(s: State, asset: Address, to: Address, amount: int, fee: int)
    requires
        0 <= amount <= i128::MAX,
        is_fee(s, to, amount, fee),
    ensures
        fee == s.fee_on(to, amount),
        chargeable(s, to, amount) <==> s.payout_fits(to, amount),
        s.pay_out(asset, to, amount) == (State {
            effects: s.effects + transfers(s, asset, to, amount, fee),
            ..s
        }),
        s.pay_out(asset, to, amount).effects == s.effects + (if fee > 0 {
            seq![
                Effect::Pay { asset, to: s.fee_config->0.treasury, amount: fee as i128 },
                Effect::Pay { asset, to, amount: (amount - fee) as i128 },
            ]
        } else {
            seq![Effect::Pay { asset, to, amount: amount as i128 }]
        }),
{
    law_fee_is_exact(s, to, amount);
    if fee < 0 {
        let bps = s.fee_config->0.bps as int;
        assert(amount * bps >= 0) by (nonlinear_arith)
            requires
                amount >= 0,
                bps >= 0,
        ;
    }
    assert(s.pay_out(asset, to, amount).effects =~= s.effects + transfers(
        s,
        asset,
        to,
        amount,
        fee,
    ));
}

/// A deposit goes through exactly where the contract is not paused, the escrow
/// is the renter's own, not funded yet and accepted, and its last clock is in
/// range. It collects the total from the renter and makes the escrow active.
/// Every milestone's auto-release falls its offset after the deposit.
pub proof fn law_deposit(s: State, renter: Address, id: u32, now: u64)
    requires
        s.wf(),
    ensures
        ({
            let (t, r) = s.deposit(renter, id, now);
            let found = s.escrows.contains_key(id);
            let e = s.escrows[id];
            let f = t.escrows[id];
            let mine = found && e.renter == renter;
            let open = mine && e.status == EscrowStatus::Created;
            let last = e.milestones[e.milestones.len() - 1].auto_release_offset;
            let signed = s.effects.push(Effect::RequireAuth { who: renter });
            &&& refuses(r, Error::ContractPaused) <==> s.paused
            &&& refuses(r, Error::EscrowNotFound) <==> !s.paused && !found
            &&& refuses(r, Error::NotAuthorized) <==> !s.paused && found && !mine
            &&& refuses(r, Error::InvalidState) <==> !s.paused && mine && !open
            &&& refuses(r, Error::HostAcceptancePending) <==> !s.paused && open && !e.host_accepted
            &&& aborts(r) <==> !s.paused && open && e.host_accepted && now + last > u64::MAX
            &&& r is Ok <==> !s.paused && open && e.host_accepted && now + last <= u64::MAX
            &&& r is Err ==> t == (State { effects: signed, ..s })
            &&& r is Ok ==> {
                &&& f.milestones.len() == e.milestones.len()
                &&& forall|i: int|
                    0 <= i < e.milestones.len() ==> (#[trigger] f.milestones[i]).auto_release_at
                        == now + e.milestones[i].auto_release_offset
                &&& forall|i: int|
                    0 <= i < e.milestones.len() ==> #[trigger] f.milestones[i]
                        == (MilestoneModel {
                        auto_release_at: f.milestones[i].auto_release_at,
                        ..e.milestones[i]
                    })
                &&& f.status == EscrowStatus::Active
                &&& f.funded_amount == e.total_amount
                &&& f == (EscrowModel {
                    milestones: f.milestones,
                    status: f.status,
                    funded_amount: f.funded_amount,
                    ..e
                })
                &&& t == (State {
                    escrows: s.escrows.insert(id, f),
                    effects: signed.push(
                        Effect::Collect { asset: e.asset, from: renter, amount: e.total_amount },
                    ).push(
                        Effect::Publish {
                            event: Event::Funded { id, total_amount: e.total_amount },
                        },
                    ),
                    ..s
                })
            }
        }),
{
    let e = s.escrows[id];
    if s.deposit(renter, id, now).1 is Ok {
        let n = e.milestones.len();
        assert forall|i: int| 0 <= i < n implies now + (
        #[trigger] e.milestones[i]).auto_release_offset <= u64::MAX by {
            assert(e.milestones[i].auto_release_offset <= e.milestones[n - 1].auto_release_offset);
        }
    }
}

/// Once a deposit at `now` went through, no milestone is auto-released before
/// `now` and its offset have passed: the call is refused as too early.
pub proof fn law_deposit_starts_the_clock(
    s: State,
    renter: Address,
    id: u32,
    now: u64,
    i: u32,
    at: u64,
)
    requires
        s.wf(),
        s.deposit(renter, id, now).1 is Ok,
        i < s.escrows[id].milestones.len(),
    ensures
        ({
            let t = s.deposit(renter, id, now).0;
            let due = now + s.escrows[id].milestones[i as int].auto_release_offset;
            refuses(t.check_auto_release(id, i, at).1, Error::TooEarly) <==> at < due
        }),
{
    law_deposit(s, renter, id, now);
    let t = s.deposit(renter, id, now).0;
    assert(t.escrows[id].milestones[i as int].auto_release_at == now
        + s.escrows[id].milestones[i as int].auto_release_offset);
}

/// What a release of a pending milestone `i` leaves behind, where `fee` is the
/// fee on its amount: the milestone is done as of `now`, the others stay, the
/// escrow is complete where this was the last, and then both parties gain one
/// point unless the escrow was ever disputed.
pub open spec fn released_one(s: State, t: State, id: u32, i: int, now: u64, fee: int) -> bool {
    let e = s.escrows[id];
    let f = t.escrows[id];
    let m = e.milestones[i];
    let last = forall|j: int|
        0 <= j < e.milestones.len() && j != i ==> (#[trigger] e.milestones[j]).released;
    &&& f.milestones.len() == e.milestones.len()
    &&& f.milestones[i] == (MilestoneModel { released: true, released_at: now, ..m })
    &&& forall|j: int|
        0 <= j < e.milestones.len() && j != i ==> #[trigger] f.milestones[j] == e.milestones[j]
    &&& last ==> f.status == EscrowStatus::Completed
    &&& !last ==> f.status == EscrowStatus::Active
    &&& f == (EscrowModel { milestones: f.milestones, status: f.status, ..e })
    &&& last && !e.ever_disputed ==> {
        &&& t.reputation.dom() == s.reputation.dom().insert(e.renter).insert(e.host)
        &&& t.reputation[e.renter] == s.reputation_of(e.renter) + 1
        &&& t.reputation[e.host] == s.reputation_of(e.host) + 1
        &&& forall|a: Address|
            a != e.renter && a != e.host && s.reputation.contains_key(a)
                ==> #[trigger] t.reputation[a] == s.reputation[a]
    }
    &&& !last || e.ever_disputed ==> t.reputation == s.reputation
    &&& t.effects == s.effects + transfers(s, e.asset, e.host, m.amount as int, fee) + seq![
        Effect::Publish {
            event: Event::Released {
                id,
                milestone_index: i as u32,
                amount: m.amount,
                host: e.host,
            },
        },
    ] + (if last {
        seq![Effect::Publish { event: Event::Complete { id } }]
    } else {
        Seq::empty()
    })
    &&& t == (State {
        escrows: s.escrows.insert(id, f),
        reputation: t.reputation,
        effects: t.effects,
        ..s
    })
}

proof fn lemma_released_one(s: State, id: u32, i: u32, now: u64, fee: int)
    requires
        s.wf(),
        s.escrows.contains_key(id),
        s.escrows[id].status == EscrowStatus::Active,
        s.release_refusal(s.escrows[id], i) is None,
        is_fee(s, s.escrows[id].host, s.escrows[id].milestones[i as int].amount as int, fee),
    ensures
        released_one(s, s.release(id, i, now), id, i as int, now, fee),
{
    let e = s.escrows[id];
    let t = s.release(id, i, now);
    let m = e.milestones[i as int];
    lemma_release_completes(e, i as int, now);
    law_payout(s, e.asset, e.host, m.amount as int, fee);
    let paid = s.pay_out(e.asset, e.host, m.amount as int);
    assert(m.amount > 0);
    let announced = Effect::Publish {
        event: Event::Released { id, milestone_index: i, amount: m.amount, host: e.host },
    };
    let done = Effect::Publish { event: Event::Complete { id } };
    if e.is_last_pending(i as int) {
        assert(t.effects =~= s.effects + transfers(s, e.asset, e.host, m.amount as int, fee)
            + seq![announced] + seq![done]);
        if !e.ever_disputed {
            assert(t.reputation.dom() =~= s.reputation.dom().insert(e.renter).insert(e.host));
        }
    } else {
        assert(t.effects =~= s.effects + transfers(s, e.asset, e.host, m.amount as int, fee)
            + seq![announced] + Seq::empty());
    }
    assert(t =~= (State {
        escrows: s.escrows.insert(id, t.escrows[id]),
        reputation: t.reputation,
        effects: t.effects,
        ..s
    }));
}

/// The renter, and nobody else, releases a pending milestone of an active
/// escrow to the host, whatever its timeout and whether or not the escrow was
/// ever disputed.
#[verifier::spinoff_prover]
pub proof fn law_confirm_milestone(
    s: State,
    renter: Address,
    id: u32,
    i: u32,
    now: u64,
    fee: int,
)
    requires
        s.wf(),
        is_fee(s, s.escrows[id].host, s.escrows[id].milestones[i as int].amount as int, fee),
    ensures
        ({
            let (t, r) = s.confirm_milestone(renter, id, i, now);
            let found = s.escrows.contains_key(id);
            let e = s.escrows[id];
            let m = e.milestones[i as int];
            let mine = found && e.renter == renter;
            let active = mine && e.status == EscrowStatus::Active;
            let pending = active && i < e.milestones.len() && !m.released;
            let last = forall|j: int|
                0 <= j < e.milestones.len() && j != i ==> (#[trigger] e.milestones[j]).released;
            let in_range = chargeable(s, e.host, m.amount as int) && (last && !e.ever_disputed ==> {
                &&& s.reputation_of(e.renter) < i32::MAX
                &&& s.reputation_of(e.host) < i32::MAX
            });
            let signed = State { effects: s.effects.push(Effect::RequireAuth { who: renter }), ..s };
            &&& refuses(r, Error::EscrowNotFound) <==> !found
            &&& refuses(r, Error::NotAuthorized) <==> found && !mine
            &&& refuses(r, Error::InvalidState) <==> mine && !active
            &&& refuses(r, Error::InvalidMilestone) <==> active && i >= e.milestones.len()
            &&& refuses(r, Error::AlreadyReleased) <==> active && i < e.milestones.len()
                && m.released
            &&& aborts(r) <==> pending && !in_range
            &&& r is Ok <==> pending && in_range
            &&& r is Err ==> t == signed
            &&& r is Ok ==> released_one(signed, t, id, i as int, now, fee)
        }),
{
    let signed = s.demand(renter);
    let e = s.escrows[id];
    if s.escrows.contains_key(id) && i < e.milestones.len() {
        assert(e.milestones[i as int].amount > 0);
        law_payout(s, e.asset, e.host, e.milestones[i as int].amount as int, fee);
        if s.confirm_milestone(renter, id, i, now).1 is Ok {
            lemma_released_one(signed, id, i, now, fee);
        }
    }
}

/// Anyone releases a pending milestone of an active escrow to the host from its
/// timeout on, and not a second earlier, whether or not the escrow was ever
/// disputed before.
#[verifier::spinoff_prover]
pub proof fn law_check_auto_release(s: State, id: u32, i: u32, now: u64, fee: int)
    requires
        s.wf(),
        is_fee(s, s.escrows[id].host, s.escrows[id].milestones[i as int].amount as int, fee),
    ensures
        ({
            let (t, r) = s.check_auto_release(id, i, now);
            let found = s.escrows.contains_key(id);
            let e = s.escrows[id];
            let m = e.milestones[i as int];
            let calm = found && e.status != EscrowStatus::Disputed;
            let named = calm && i < e.milestones.len();
            let due = named && now >= m.auto_release_at;
            let pending = due && e.status == EscrowStatus::Active && !m.released;
            let last = forall|j: int|
                0 <= j < e.milestones.len() && j != i ==> (#[trigger] e.milestones[j]).released;
            let in_range = chargeable(s, e.host, m.amount as int) && (last && !e.ever_disputed ==> {
                &&& s.reputation_of(e.renter) < i32::MAX
                &&& s.reputation_of(e.host) < i32::MAX
            });
            &&& refuses(r, Error::EscrowNotFound) <==> !found
            &&& refuses(r, Error::EscrowDisputed) <==> found && !calm
            &&& refuses(r, Error::InvalidMilestone) <==> calm && !named
            &&& refuses(r, Error::TooEarly) <==> named && now < m.auto_release_at
            &&& refuses(r, Error::InvalidState) <==> due && e.status != EscrowStatus::Active
            &&& refuses(r, Error::AlreadyReleased) <==> due && e.status == EscrowStatus::Active
                && m.released
            &&& aborts(r) <==> pending && !in_range
            &&& r is Ok <==> pending && in_range
            &&& r is Err ==> t == s
            &&& r is Ok ==> released_one(s, t, id, i as int, now, fee)
        }),
{
    let e = s.escrows[id];
    if s.escrows.contains_key(id) && i < e.milestones.len() {
        assert(e.milestones[i as int].amount > 0);
        law_payout(s, e.asset, e.host, e.milestones[i as int].amount as int, fee);
        if s.check_auto_release(id, i, now).1 is Ok {
            lemma_released_one(s, id, i, now, fee);
        }
    }
}

/// The transfers and announcements by which the pending ones among the first
/// `n` milestones of `e` are released in order, where `fees` are the fees on
/// their amounts.
pub open spec fn releases(s: State, e: EscrowModel, fees: Seq<int>, n: nat) -> Seq<Effect>
    decreases n,
{
    if n == 0 {
        Seq::empty()
    } else if e.milestones[n - 1].released {
        releases(s, e, fees, (n - 1) as nat)
    } else {
        releases(s, e, fees, (n - 1) as nat) + transfers(
            s,
            e.asset,
            e.host,
            e.milestones[n - 1].amount as int,
            fees[n - 1],
        ) + seq![
            Effect::Publish {
                event: Event::Released {
                    id: e.id,
                    milestone_index: (n - 1) as u32,
                    amount: e.milestones[n - 1].amount,
                    host: e.host,
                },
            },
        ]
    }
}

proof fn lemma_releases(s: State, e: EscrowModel, fees: Seq<int>, n: nat)
    requires
        e.wf(),
        n <= e.milestones.len(),
        fees.len() == e.milestones.len(),
        forall|k: int|
            0 <= k < fees.len() ==> is_fee(
                s,
                e.host,
                (#[trigger] e.milestones[k]).amount as int,
                fees[k],
            ),
    ensures
        s.announce_releases(e, n) == (State {
            effects: s.effects + releases(s, e, fees, n),
            ..s
        }),
    decreases n,
{
    if n == 0 {
        assert(s.effects + releases(s, e, fees, 0) =~= s.effects);
    } else {
        let before = s.announce_releases(e, (n - 1) as nat);
        let m = e.milestones[n - 1];
        lemma_releases(s, e, fees, (n - 1) as nat);
        if !m.released {
            assert(is_fee(before, e.host, m.amount as int, fees[n - 1]));
            law_payout(before, e.asset, e.host, m.amount as int, fees[n - 1]);
            assert(s.announce_releases(e, n).effects =~= s.effects + releases(s, e, fees, n));
        }
    }
}

/// The renter, and nobody else, releases everything that is pending of an
/// active escrow at once, whether or not it was ever disputed: every milestone
/// is then released, the escrow complete, each pending amount paid to the host
/// less its fee. Where nothing is pending the call goes through and changes
/// nothing.
#[verifier::spinoff_prover]
pub proof fn law_confirm_all_milestones(
    s: State,
    renter: Address,
    id: u32,
    now: u64,
    fees: Seq<int>,
)
    requires
        s.wf(),
        s.escrows.contains_key(id) ==> fees.len() == s.escrows[id].milestones.len(),
        forall|k: int|
            0 <= k < fees.len() ==> is_fee(
                s,
                s.escrows[id].host,
                (#[trigger] s.escrows[id].milestones[k]).amount as int,
                fees[k],
            ),
    ensures
        ({
            let (t, r) = s.confirm_all_milestones(renter, id, now);
            let found = s.escrows.contains_key(id);
            let e = s.escrows[id];
            let f = t.escrows[id];
            let mine = found && e.renter == renter;
            let any = exists|k: int|
                0 <= k < e.milestones.len() && !(#[trigger] e.milestones[k]).released;
            let active = e.status == EscrowStatus::Active;
            let in_range = {
                &&& forall|k: int|
                    0 <= k < e.milestones.len() && !(#[trigger] e.milestones[k]).released
                        ==> chargeable(s, e.host, e.milestones[k].amount as int)
                &&& !e.ever_disputed ==> s.reputation_of(e.renter) < i32::MAX && s.reputation_of(
                    e.host,
                ) < i32::MAX
            };
            let signed = s.effects.push(Effect::RequireAuth { who: renter });
            &&& refuses(r, Error::EscrowNotFound) <==> !found
            &&& refuses(r, Error::NotAuthorized) <==> found && !mine
            &&& refuses(r, Error::InvalidState) <==> mine && any && !active
            &&& aborts(r) <==> mine && any && active && !in_range
            &&& r is Ok <==> mine && (any ==> active && in_range)
            &&& r is Err || !any ==> t == (State { effects: signed, ..s })
            &&& r is Ok ==> forall|k: int|
                0 <= k < f.milestones.len() ==> (#[trigger] f.milestones[k]).released
            &&& r is Ok && any ==> {
                &&& f.milestones.len() == e.milestones.len()
                &&& forall|k: int|
                    0 <= k < e.milestones.len() ==> #[trigger] f.milestones[k] == (
                    if e.milestones[k].released {
                        e.milestones[k]
                    } else {
                        MilestoneModel { released: true, released_at: now, ..e.milestones[k] }
                    })
                &&& f.status == EscrowStatus::Completed
                &&& f == (EscrowModel { milestones: f.milestones, status: f.status, ..e })
                &&& e.ever_disputed ==> t.reputation == s.reputation
                &&& !e.ever_disputed ==> {
                    &&& t.reputation.dom() == s.reputation.dom().insert(e.renter).insert(e.host)
                    &&& t.reputation[e.renter] == s.reputation_of(e.renter) + 1
                    &&& t.reputation[e.host] == s.reputation_of(e.host) + 1
                    &&& forall|a: Address|
                        a != e.renter && a != e.host && s.reputation.contains_key(a)
                            ==> #[trigger] t.reputation[a] == s.reputation[a]
                }
                &&& t == (State {
                    escrows: s.escrows.insert(id, f),
                    reputation: t.reputation,
                    effects: signed + releases(s, e, fees, e.milestones.len()) + seq![
                        Effect::Publish { event: Event::Complete { id } },
                    ],
                    ..s
                })
            }
        }),
{
    let (t, r) = s.confirm_all_milestones(renter, id, now);
    let e = s.escrows[id];
    let d = s.demand(renter);
    if s.escrows.contains_key(id) {
        assert forall|k: int| 0 <= k < e.milestones.len() implies s.payout_fits(
            e.host,
            (#[trigger] e.milestones[k]).amount as int,
        ) == chargeable(s, e.host, e.milestones[k].amount as int) by {
            law_payout(s, e.asset, e.host, e.milestones[k].amount as int, fees[k]);
        }
        if r is Ok && !e.all_released() {
            lemma_releases(d, e, fees, e.milestones.len());
            lemma_releases_same(s, d, e, fees, e.milestones.len());
            let done = Effect::Publish { event: Event::Complete { id } };
            assert(t.effects =~= d.effects + releases(s, e, fees, e.milestones.len()) + seq![
                done,
            ]);
            if !e.ever_disputed {
                assert(t.reputation.dom() =~= s.reputation.dom().insert(e.renter).insert(e.host));
            }
        }
    }
}

/// Releases depend on the fee configuration alone.
proof fn lemma_releases_same(s: State, t: State, e: EscrowModel, fees: Seq<int>, n: nat)
    requires
        t.fee_config == s.fee_config,
    ensures
        releases(s, e, fees, n) == releases(t, e, fees, n),
    decreases n,
{
    if n > 0 {
        lemma_releases_same(s, t, e, fees, (n - 1) as nat);
    }
}

/// Both parties together, and nobody else, unwind an active escrow. The renter
/// gets back, free of fees, exactly what is pending; pending milestones are
/// written off with no payment to the host on record, and the escrow is
/// cancelled.
#[verifier::spinoff_prover]
pub proof fn law_mutual_cancel(s: State, renter: Address, host: Address, id: u32)
    requires
        s.wf(),
    ensures
        ({
            let (t, r) = s.mutual_cancel(renter, host, id);
            let found = s.escrows.contains_key(id);
            let e = s.escrows[id];
            let f = t.escrows[id];
            let both = found && e.renter == renter && e.host == host;
            let refund = pending_sum(e.milestones);
            let signed = s.effects + seq![
                Effect::RequireAuth { who: renter },
                Effect::RequireAuth { who: host },
            ];
            &&& refuses(r, Error::EscrowNotFound) <==> !found
            &&& refuses(r, Error::NotAuthorized) <==> found && !both
            &&& refuses(r, Error::InvalidState) <==> both && e.status != EscrowStatus::Active
            &&& r is Ok <==> both && e.status == EscrowStatus::Active
            &&& r is Err ==> t == (State { effects: signed, ..s })
            &&& r is Ok ==> {
                &&& f.milestones.len() == e.milestones.len()
                &&& forall|k: int|
                    0 <= k < e.milestones.len() ==> #[trigger] f.milestones[k]
                        == (MilestoneModel { released: true, ..e.milestones[k] })
                &&& f.status == EscrowStatus::Cancelled
                &&& f == (EscrowModel { milestones: f.milestones, status: f.status, ..e })
                &&& 0 <= refund <= i128::MAX
                &&& t == (State {
                    escrows: s.escrows.insert(id, f),
                    effects: signed + (if refund > 0 {
                        seq![
                            Effect::Pay { asset: e.asset, to: renter, amount: refund as i128 },
                        ]
                    } else {
                        Seq::empty()
                    }) + seq![
                        Effect::Publish { event: Event::Mutual { id, refund: refund as i128 } },
                    ],
                    ..s
                })
            }
        }),
{
    let (t, r) = s.mutual_cancel(renter, host, id);
    let e = s.escrows[id];
    let signed = s.effects + seq![
        Effect::RequireAuth { who: renter },
        Effect::RequireAuth { who: host },
    ];
    let refund = pending_sum(e.milestones);
    assert(s.demand(renter).demand(host).effects =~= signed);
    if r is Ok {
        lemma_amount_sum_bounds(e.milestones, e.milestones.len() as int);
        assert(e.milestones.take(e.milestones.len() as int) =~= e.milestones);
        assert(t.effects =~= signed + (if refund > 0 {
            seq![Effect::Pay { asset: e.asset, to: renter, amount: refund as i128 }]
        } else {
            Seq::empty()
        }) + seq![Effect::Publish { event: Event::Mutual { id, refund: refund as i128 } }]);
    }
}

/// The renter, and nobody else, moves the timeout of a pending milestone of an
/// active escrow later by up to a year at a time, by exactly the time asked
/// for. Nothing else changes.
pub proof fn law_extend_milestone_deadline(
    s: State,
    renter: Address,
    id: u32,
    i: u32,
    extra: u64,
)
    ensures
        ({
            let (t, r) = s.extend_milestone_deadline(renter, id, i, extra);
            let found = s.escrows.contains_key(id);
            let e = s.escrows[id];
            let f = t.escrows[id];
            let m = e.milestones[i as int];
            let mine = found && e.renter == renter;
            let active = mine && e.status == EscrowStatus::Active;
            let bounded = active && 1 <= extra <= 31_536_000;
            let named = bounded && i < e.milestones.len();
            let pending = named && !m.released;
            let signed = s.effects.push(Effect::RequireAuth { who: renter });
            &&& refuses(r, Error::EscrowNotFound) <==> !found
            &&& refuses(r, Error::NotAuthorized) <==> found && !mine
            &&& refuses(r, Error::InvalidState) <==> mine && !active
            &&& refuses(r, Error::InvalidAmount) <==> active && !bounded || pending
                && m.auto_release_at + extra > u64::MAX
            &&& refuses(r, Error::InvalidMilestone) <==> bounded && !named
            &&& refuses(r, Error::AlreadyReleased) <==> named && m.released
            &&& r is Ok <==> pending && m.auto_release_at + extra <= u64::MAX
            &&& r is Err ==> t == (State { effects: signed, ..s })
            &&& r is Ok ==> {
                &&& f.milestones.len() == e.milestones.len()
                &&& f.milestones[i as int].auto_release_at == m.auto_release_at + extra
                &&& f.milestones[i as int] == (MilestoneModel {
                    auto_release_at: f.milestones[i as int].auto_release_at,
                    ..m
                })
                &&& forall|j: int|
                    0 <= j < e.milestones.len() && j != i ==> #[trigger] f.milestones[j]
                        == e.milestones[j]
                &&& f == (EscrowModel { milestones: f.milestones, ..e })
                &&& t == (State { escrows: s.escrows.insert(id, f), effects: signed, ..s })
            }
        }),
{
}

} // verus!
