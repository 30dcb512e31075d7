//! The contract can always pay what it owes.

use crate::incentives::{redistributed, sum_over};
use crate::laws::calls::{
    lemma_demands, signers, AdminCall, Call, DisputeCall, FundsCall, JurorCall, TermsCall,
};
use crate::laws::changes::lemma_admin_change;
use crate::laws::consistency::{lemma_same_records, lemma_without};
use crate::laws::sums::{
    law_redistribution_creates_nothing, lemma_sum_point, lemma_sum_same, lemma_sum_without,
    stake_in,
};
use crate::lifecycle::lemma_amount_sum_bounds;
use crate::payout::lemma_bps_bounds;
use crate::release::{lemma_announce_releases_frame, settled};
use crate::resolution::payments;
use crate::state::{amount_sum, pending_sum, State};
use crate::types::{Address, Effect, EscrowModel, EscrowStatus, MilestoneModel};
use vstd::prelude::*;

verus! {

/// What `effect` adds to the contract's balance of `asset`.
pub open spec fn inflow(effect: Effect, asset: Address) -> int {
    match effect {
        Effect::Collect { asset: a, from, amount } => if a == asset {
            amount as int
        } else {
            0
        },
        Effect::Pay { asset: a, to, amount } => if a == asset {
            -amount as int
        } else {
            0
        },
        _ => 0,
    }
}

/// The contract's balance of `asset` once `effects` are carried out.
pub open spec fn balance(effects: Seq<Effect>, asset: Address) -> int
    decreases effects.len(),
{
    if effects.len() == 0 {
        0
    } else {
        balance(effects.drop_last(), asset) + inflow(effects.last(), asset)
    }
}

impl EscrowModel {
    /// What the escrow holds of `asset`: the pending milestones of an escrow
    /// under way.
    pub open spec fn locked(self, asset: Address) -> int {
        if self.asset == asset && (self.status == EscrowStatus::Active || self.status
            == EscrowStatus::Disputed) {
            pending_sum(self.milestones)
        } else {
            0
        }
    }
}

/// What the first `n` escrows hold of `asset` together.
pub open spec fn locked_in(escrows: Map<u32, EscrowModel>, n: nat, asset: Address) -> int
    decreases n,
{
    if n == 0 {
        0
    } else {
        locked_in(escrows, (n - 1) as nat, asset) + escrows[(n - 1) as u32].locked(asset)
    }
}

impl State {
    /// What the contract owes of `asset`: what its escrows hold and what its
    /// jurors have staked.
    pub open spec fn owed(self, asset: Address) -> int {
        locked_in(self.escrows, self.escrow_count as nat, asset) + sum_over(
            self.juror_pool,
            stake_in(self.juror_stakes, asset),
        )
    }

    /// What the contract has of `asset` beyond what it owes.
    pub open spec fn surplus(self, asset: Address) -> int {
        balance(self.effects, asset) - self.owed(asset)
    }
}

proof fn lemma_balance_push(effects: Seq<Effect>, e: Effect, asset: Address)
    ensures
        balance(effects.push(e), asset) == balance(effects, asset) + inflow(e, asset),
{
    assert(effects.push(e).drop_last() =~= effects);
}

/// What a payout, fee included, takes from the balance.
proof fn lemma_balance_pay_out(s: State, a: Address, to: Address, amount: int, asset: Address)
    requires
        s.wf(),
        0 <= amount <= i128::MAX,
    ensures
        balance(s.pay_out(a, to, amount).effects, asset) == balance(s.effects, asset) - if a
            == asset {
            amount
        } else {
            0
        },
{
    let fee = s.fee_on(to, amount);
    lemma_bps_bounds(amount, s.fee_rate(to) as int);
    let e1 = Effect::Pay { asset: a, to: s.fee_config->0.treasury, amount: fee as i128 };
    let e2 = Effect::Pay { asset: a, to, amount: (amount - fee) as i128 };
    lemma_balance_push(s.effects, e1, asset);
    lemma_balance_push(s.effects.push(e1), e2, asset);
    lemma_balance_push(s.effects, e2, asset);
}

/// What the payments to the jurors take from the balance.
proof fn lemma_balance_payments(
    effects: Seq<Effect>,
    a: Address,
    jurors: Seq<Address>,
    share: int,
    asset: Address,
)
    requires
        0 <= share <= i128::MAX,
    ensures
        balance(effects + payments(a, jurors, share), asset) == balance(effects, asset) - if a
            == asset {
            share * jurors.len()
        } else {
            0
        },
    decreases jurors.len(),
{
    let all = effects + payments(a, jurors, share);
    if jurors.len() == 0 {
        assert(all =~= effects);
        assert(share * jurors.len() == 0) by (nonlinear_arith)
            requires
                jurors.len() == 0,
        ;
    } else {
        let rest = jurors.drop_last();
        lemma_balance_payments(effects, a, rest, share, asset);
        assert(all.drop_last() =~= effects + payments(a, rest, share));
        assert(share * jurors.len() == share * rest.len() + share) by (nonlinear_arith)
            requires
                jurors.len() == rest.len() + 1,
        ;
    }
}

/// Changing one escrow changes what all hold by as much as that one.
proof fn lemma_locked_insert(
    escrows: Map<u32, EscrowModel>,
    id: u32,
    e: EscrowModel,
    n: nat,
    asset: Address,
)
    requires
        n <= u32::MAX,
    ensures
        locked_in(escrows.insert(id, e), n, asset) == locked_in(escrows, n, asset) + if id < n {
            e.locked(asset) - escrows[id].locked(asset)
        } else {
            0
        },
    decreases n,
{
    if n > 0 {
        lemma_locked_insert(escrows, id, e, (n - 1) as nat, asset);
    }
}

/// Where nothing is pending, nothing is owed.
proof fn lemma_pending_none(ms: Seq<MilestoneModel>)
    requires
        forall|i: int| 0 <= i < ms.len() ==> (#[trigger] ms[i]).released,
    ensures
        pending_sum(ms) == 0,
    decreases ms.len(),
{
    if ms.len() > 0 {
        assert(ms[ms.len() - 1].released);
        let rest = ms.drop_last();
        assert forall|i: int| 0 <= i < rest.len() implies (#[trigger] rest[i]).released by {
            assert(ms[i].released);
        }
        lemma_pending_none(rest);
    }
}

/// Where everything is pending, all is owed.
proof fn lemma_pending_all(ms: Seq<MilestoneModel>)
    requires
        forall|i: int| 0 <= i < ms.len() ==> !(#[trigger] ms[i]).released,
    ensures
        pending_sum(ms) == amount_sum(ms),
    decreases ms.len(),
{
    if ms.len() > 0 {
        assert(!ms[ms.len() - 1].released);
        let rest = ms.drop_last();
        assert forall|i: int| 0 <= i < rest.len() implies !(#[trigger] rest[i]).released by {
            assert(!ms[i].released);
        }
        lemma_pending_all(rest);
    }
}

/// What is pending depends on nothing but the amounts and flags.
proof fn lemma_pending_same(a: Seq<MilestoneModel>, b: Seq<MilestoneModel>)
    requires
        a.len() == b.len(),
        forall|i: int|
            0 <= i < a.len() ==> (#[trigger] a[i]).amount == b[i].amount && a[i].released
                == b[i].released,
    ensures
        pending_sum(a) == pending_sum(b),
        amount_sum(a) == amount_sum(b),
    decreases a.len(),
{
    if a.len() > 0 {
        lemma_pending_same(a.drop_last(), b.drop_last());
    }
}

/// Settling a pending milestone takes its amount off what is pending.
proof fn lemma_pending_settle(ms: Seq<MilestoneModel>, i: int, at: u64)
    requires
        0 <= i < ms.len(),
        !ms[i].released,
    ensures
        pending_sum(ms.update(i, settled(ms[i], at))) == pending_sum(ms) - ms[i].amount,
    decreases ms.len(),
{
    let after = ms.update(i, settled(ms[i], at));
    if i == ms.len() - 1 {
        assert(after.drop_last() =~= ms.drop_last());
    } else {
        lemma_pending_settle(ms.drop_last(), i, at);
        assert(after.drop_last() =~= ms.drop_last().update(i, settled(ms.drop_last()[i], at)));
        assert(after.last() == ms.last());
    }
}

/// What announced releases take from the balance.
proof fn lemma_balance_releases(s: State, e: EscrowModel, n: nat, asset: Address)
    requires
        s.wf(),
        e.wf(),
        n <= e.milestones.len(),
    ensures
        balance(s.announce_releases(e, n).effects, asset) == balance(s.effects, asset) - if e.asset
            == asset {
            pending_sum(e.milestones.take(n as int))
        } else {
            0
        },
    decreases n,
{
    if n > 0 {
        let m = (n - 1) as nat;
        lemma_balance_releases(s, e, m, asset);
        assert(e.milestones.take(n as int).drop_last() =~= e.milestones.take(m as int));
        lemma_announce_releases_frame(s, s, e, m);
        let t = s.announce_releases(e, m);
        let amount = e.milestones[n - 1].amount as int;
        lemma_balance_pay_out(t, e.asset, e.host, amount, asset);
        lemma_balance_push(
            t.pay_out(e.asset, e.host, amount).effects,
            s.announce_releases(e, n).effects.last(),
            asset,
        );
    }
}

/// What is owed once escrow `id` became `e`, where no stake moved.
proof fn lemma_owed_one_escrow(s: State, t: State, id: u32, e: EscrowModel, asset: Address)
    requires
        s.escrows.contains_key(id),
        s.ids_ok(),
        t.escrows == s.escrows.insert(id, e),
        t.escrow_count == s.escrow_count,
        t.juror_pool == s.juror_pool,
        t.juror_stakes == s.juror_stakes,
    ensures
        t.owed(asset) == s.owed(asset) + e.locked(asset) - s.escrows[id].locked(asset),
{
    lemma_locked_insert(s.escrows, id, e, s.escrow_count as nat, asset);
}

proof fn lemma_admin_solvent(s: State, c: AdminCall, asset: Address)
    ensures
        s.admin_step(c).0.surplus(asset) == s.surplus(asset),
{
    let who = signers(Call::Admin(c))[0];
    lemma_admin_change(s, c);
    lemma_demands(s);
    assert(s.demand_all(signers(Call::Admin(c))) == s.demand(who));
    lemma_balance_push(s.effects, Effect::RequireAuth { who }, asset);
}

#[verifier::spinoff_prover]
proof fn lemma_terms_solvent(s: State, c: TermsCall, asset: Address)
    requires
        s.wf(),
        s.consistent(),
    ensures
        s.terms_step(c).0.surplus(asset) == s.surplus(asset),
{
    reveal(State::terms_step);
    let t = s.terms_step(c).0;
    assert forall|e1: Effect| balance(#[trigger] s.effects.push(e1), asset) == balance(
        s.effects,
        asset,
    ) + inflow(e1, asset) by {
        lemma_balance_push(s.effects, e1, asset);
    }
    assert forall|e1: Effect, e2: Effect| balance(
        #[trigger] s.effects.push(e1).push(e2),
        asset,
    ) == balance(s.effects, asset) + inflow(e1, asset) + inflow(e2, asset) by {
        lemma_balance_push(s.effects.push(e1), e2, asset);
    }
    if s.terms_step(c).1 is None {
        match c {
            TermsCall::CreateEscrow { .. } => {
                let n = s.escrow_count;
                lemma_locked_insert(s.escrows, n, t.escrows[n], n as nat, asset);
                assert(t.escrows == s.escrows.insert(n, t.escrows[n]));
            },
            TermsCall::AcceptEscrow { id, .. } => {
                lemma_owed_one_escrow(s, t, id, t.escrows[id], asset);
            },
            TermsCall::RejectEscrow { id, .. } => {
                lemma_owed_one_escrow(s, t, id, t.escrows[id], asset);
            },
            TermsCall::AddMilestone { id, .. } => {
                lemma_owed_one_escrow(s, t, id, t.escrows[id], asset);
            },
            TermsCall::RemoveMilestone { id, .. } => {
                lemma_owed_one_escrow(s, t, id, t.escrows[id], asset);
            },
            TermsCall::UpdateMilestone { id, .. } => {
                lemma_owed_one_escrow(s, t, id, t.escrows[id], asset);
            },
            TermsCall::CancelEscrow { id, .. } => {
                lemma_owed_one_escrow(s, t, id, t.escrows[id], asset);
            },
            TermsCall::ExpireUnfundedEscrow { id, .. } => {
                lemma_owed_one_escrow(s, t, id, t.escrows[id], asset);
            },
        }
    }
}

/// Releasing a milestone pays out exactly what the escrow no longer holds.
proof fn lemma_release_solvent(s: State, id: u32, i: u32, now: u64, asset: Address)
    requires
        s.wf(),
        s.consistent(),
        s.escrows.contains_key(id),
        s.release_refusal(s.escrows[id], i) is None,
    ensures
        s.release(id, i, now).surplus(asset) == s.surplus(asset),
{
    let e = s.escrows[id];
    let t = s.release(id, i, now);
    let f = e.release(i as int, now);
    let amount = e.milestones[i as int].amount as int;
    let paid = s.pay_out(e.asset, e.host, amount);
    let announced = s.announce_release(e, i as int);
    lemma_balance_pay_out(s, e.asset, e.host, amount, asset);
    lemma_balance_push(paid.effects, announced.effects.last(), asset);
    lemma_balance_push(announced.effects, t.effects.last(), asset);
    lemma_pending_settle(e.milestones, i as int, now);
    if f.all_released() {
        lemma_pending_none(f.milestones);
    }
    lemma_owed_one_escrow(s, t, id, f, asset);
}

#[verifier::spinoff_prover]
proof fn lemma_funds_solvent(s: State, c: FundsCall, asset: Address)
    requires
        s.wf(),
        s.consistent(),
    ensures
        s.funds_step(c).0.surplus(asset) == s.surplus(asset),
{
    reveal(State::funds_step);
    let t = s.funds_step(c).0;
    assert forall|x: Seq<Effect>, e1: Effect| balance(#[trigger] x.push(e1), asset) == balance(
        x,
        asset,
    ) + inflow(e1, asset) by {
        lemma_balance_push(x, e1, asset);
    }
    if s.funds_step(c).1 is None {
        match c {
            FundsCall::Deposit { renter, id, now } => {
                let e = s.escrows[id];
                let f = e.fund(now);
                assert forall|j: int| 0 <= j < f.milestones.len() implies !(
                #[trigger] f.milestones[j]).released by {
                    assert(!e.milestones[j].released);
                }
                lemma_pending_all(f.milestones);
                assert(e.status_ok());
                lemma_pending_all(e.milestones);
                lemma_pending_same(f.milestones, e.milestones);
                lemma_owed_one_escrow(s, t, id, f, asset);
            },
            FundsCall::MutualCancel { renter, host, id } => {
                let e = s.escrows[id];
                lemma_amount_sum_bounds(e.milestones, e.milestones.len() as int);
                assert(e.milestones.take(e.milestones.len() as int) =~= e.milestones);
                lemma_owed_one_escrow(s, t, id, e.unwind(), asset);
            },
            FundsCall::ConfirmMilestone { renter, id, i, now } => {
                let d = s.demand(renter);
                lemma_demand_consistent(s, renter);
                lemma_release_solvent(d, id, i, now, asset);
            },
            FundsCall::ConfirmAllMilestones { renter, id, now } => {
                let d = s.demand(renter);
                let e = s.escrows[id];
                let n = e.milestones.len();
                if !e.all_released() {
                    lemma_announce_releases_frame(d, d, e, n);
                    lemma_balance_releases(d, e, n, asset);
                    assert(e.milestones.take(n as int) =~= e.milestones);
                    lemma_owed_one_escrow(s, t, id, e.release_all(now), asset);
                }
            },
            FundsCall::CheckAutoRelease { id, i, now } => {
                lemma_release_solvent(s, id, i, now, asset);
            },
            FundsCall::ExtendMilestoneDeadline { renter, id, i, extra } => {
                let e = s.escrows[id];
                let f = t.escrows[id];
                lemma_pending_same(f.milestones, e.milestones);
                lemma_owed_one_escrow(s, t, id, f, asset);
            },
        }
    }
}

/// Demanding a signature leaves the records as they are.
proof fn lemma_demand_consistent(s: State, who: Address)
    requires
        s.wf(),
        s.consistent(),
    ensures
        s.demand(who).wf(),
        s.demand(who).consistent(),
{
    lemma_same_records(s, s.demand(who));
}

/// Settling a dispute by vote pays out no more than the escrow no longer holds.
proof fn lemma_resolve_solvent(s: State, id: u32, i: u32, now: u64, asset: Address)
    requires
        s.wf(),
        s.consistent(),
        s.resolve_refusal(id, i) is None,
    ensures
        s.resolve_dispute(id, i, now).0.surplus(asset) >= s.surplus(asset),
{
    let t = s.resolve_dispute(id, i, now).0;
    let d = s.disputes[(id, i)];
    let e = s.escrows[id];
    let w = s.renter_wins(d);
    let amount = e.milestones[i as int].amount as int;
    let fee = d.arbitration_fee(amount);
    let share = d.juror_share(amount);
    let n = d.jurors.len() as int;
    let winner = if w {
        e.renter
    } else {
        e.host
    };
    let at: u64 = if w {
        0
    } else {
        now
    };
    assert(s.dispute_ok((id, i)));
    assert(e.status_ok());
    lemma_bps_bounds(amount, d.arbitration_fee_bps as int);
    assert(0 <= share <= fee && share * n <= fee) by (nonlinear_arith)
        requires
            share == fee / n,
            n > 0,
            fee >= 0,
    ;
    let p1 = s.pay_jurors(e.asset, d.jurors, share);
    lemma_balance_payments(s.effects, e.asset, d.jurors, share, asset);
    if share == 0 {
        assert(share * n == 0) by (nonlinear_arith)
            requires
                share == 0,
        ;
    }
    let p2 = p1.pay_out(e.asset, winner, amount - fee);
    lemma_balance_pay_out(p1, e.asset, winner, amount - fee, asset);
    let f = e.settle(i as int, at);
    lemma_pending_settle(e.milestones, i as int, at);
    if f.all_released() {
        lemma_pending_none(f.milestones);
    }
    assert forall|j: int| 0 <= j < f.milestones.len() && e.is_last_pending(i as int) implies (
    #[trigger] f.milestones[j]).released by {
        assert(j != i ==> e.milestones[j].released);
    }
    lemma_balance_push(p2.effects, t.effects[p2.effects.len() as int], asset);
    lemma_balance_push(
        p2.effects.push(t.effects[p2.effects.len() as int]),
        t.effects.last(),
        asset,
    );
    let after = redistributed(s.juror_stakes, d.winning_votes(w), d.losing_votes(w), d.slash_bps);
    law_redistribution_creates_nothing(
        s.juror_pool,
        s.juror_stakes,
        d.winning_votes(w),
        d.losing_votes(w),
        d.slash_bps,
        asset,
    );
    let u = State { juror_stakes: s.juror_stakes, ..t };
    lemma_owed_one_escrow(s, u, id, f, asset);
    assert(t.juror_stakes == after);
}

/// Splitting a disputed amount pays out exactly what the escrow no longer
/// holds.
proof fn lemma_force_solvent(s: State, id: u32, i: u32, now: u64, asset: Address)
    requires
        s.wf(),
        s.consistent(),
        s.force_refusal(id, i, now) is None,
    ensures
        s.force_resolve_stale_dispute(id, i, now).0.surplus(asset) == s.surplus(asset),
{
    let t = s.force_resolve_stale_dispute(id, i, now).0;
    let e = s.escrows[id];
    let amount = e.milestones[i as int].amount as int;
    assert(s.dispute_ok((id, i)));
    assert(e.status_ok());
    let p1 = s.pay_out(e.asset, e.renter, amount / 2);
    lemma_balance_pay_out(s, e.asset, e.renter, amount / 2, asset);
    let p2 = p1.pay_out(e.asset, e.host, amount - amount / 2);
    lemma_balance_pay_out(p1, e.asset, e.host, amount - amount / 2, asset);
    let f = e.settle(i as int, now);
    lemma_pending_settle(e.milestones, i as int, now);
    if f.all_released() {
        lemma_pending_none(f.milestones);
    }
    assert forall|j: int| 0 <= j < f.milestones.len() && e.is_last_pending(i as int) implies (
    #[trigger] f.milestones[j]).released by {
        assert(j != i ==> e.milestones[j].released);
    }
    lemma_balance_push(p2.effects, t.effects[p2.effects.len() as int], asset);
    lemma_balance_push(
        p2.effects.push(t.effects[p2.effects.len() as int]),
        t.effects.last(),
        asset,
    );
    lemma_owed_one_escrow(s, t, id, f, asset);
}

#[verifier::spinoff_prover]
proof fn lemma_dispute_solvent(s: State, c: DisputeCall, asset: Address)
    requires
        s.wf(),
        s.consistent(),
    ensures
        s.dispute_step(c).0.surplus(asset) >= s.surplus(asset),
        !(c is ResolveDispute) ==> s.dispute_step(c).0.surplus(asset) == s.surplus(asset),
{
    reveal(State::dispute_step);
    let t = s.dispute_step(c).0;
    assert forall|x: Seq<Effect>, e1: Effect| balance(#[trigger] x.push(e1), asset) == balance(
        x,
        asset,
    ) + inflow(e1, asset) by {
        lemma_balance_push(x, e1, asset);
    }
    if s.dispute_step(c).1 is None {
        match c {
            DisputeCall::RaiseDispute { caller, id, i, evidence, now } => {
                lemma_owed_one_escrow(s, t, id, s.escrows[id].frozen(i), asset);
            },
            DisputeCall::ResolveDispute { id, i, now } => {
                lemma_resolve_solvent(s, id, i, now, asset);
            },
            DisputeCall::ForceResolveStaleDispute { id, i, now } => {
                lemma_force_solvent(s, id, i, now, asset);
            },
            _ => {},
        }
    }
}

#[verifier::spinoff_prover]
proof fn lemma_juror_solvent(s: State, c: JurorCall, asset: Address)
    requires
        s.wf(),
        s.consistent(),
    ensures
        s.juror_step(c).0.surplus(asset) == s.surplus(asset),
{
    reveal(State::juror_step);
    let t = s.juror_step(c).0;
    let f = stake_in(s.juror_stakes, asset);
    let g = stake_in(t.juror_stakes, asset);
    assert forall|x: Seq<Effect>, e1: Effect| balance(#[trigger] x.push(e1), asset) == balance(
        x,
        asset,
    ) + inflow(e1, asset) by {
        lemma_balance_push(x, e1, asset);
    }
    if s.juror_step(c).1 is None {
        match c {
            JurorCall::RegisterJuror { juror, asset: a, stake } => {
                assert(s.juror_stakes.contains_key(juror) <==> s.juror_pool.contains(juror));
                assert forall|x: Address| x != juror implies #[trigger] f(x) == g(x) by {}
                lemma_sum_point(s.juror_pool, juror, f, g);
                if !s.juror_pool.contains(juror) {
                    assert(t.juror_pool.drop_last() =~= s.juror_pool);
                }
            },
            JurorCall::WithdrawJurorStake { juror } => {
                assert(s.juror_stakes.contains_key(juror) <==> s.juror_pool.contains(juror));
                lemma_sum_without(s.juror_pool, juror, f);
                assert forall|x: Address| #[trigger] t.juror_pool.contains(x) implies f(x)
                    == g(x) by {
                    lemma_without(s.juror_pool, juror, x);
                }
                lemma_sum_same(t.juror_pool, f, g);
            },
        }
    }
}

/// What the contract has beyond what it owes never shrinks, in any asset: no
/// call pays out what an escrow or a juror could still claim. It grows only by
/// what the resolution of a dispute leaves to nobody: the remainders of even
/// shares, and slashed stakes with no winner in the same asset.
pub proof fn law_surplus_never_shrinks(s: State, call: Call, asset: Address)
    requires
        s.wf(),
        s.consistent(),
    ensures
        s.step(call).0.surplus(asset) >= s.surplus(asset),
        !(call matches Call::Dispute(c) && c is ResolveDispute) ==> s.step(call).0.surplus(asset)
            == s.surplus(asset),
{
    match call {
        Call::Admin(c) => lemma_admin_solvent(s, c, asset),
        Call::Terms(c) => lemma_terms_solvent(s, c, asset),
        Call::Funds(c) => lemma_funds_solvent(s, c, asset),
        Call::Dispute(c) => lemma_dispute_solvent(s, c, asset),
        Call::Juror(c) => lemma_juror_solvent(s, c, asset),
    }
}

} // verus!
