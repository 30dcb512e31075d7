//! Who pays, who is paid, and what is announced.

use crate::laws::calls::{
    lemma_announcements_add, Call, DisputeCall, FundsCall, JurorCall, TermsCall,
};
use crate::laws::changes::{
    dispute_target, funds_target, lemma_admin_change, lemma_dispute_change, lemma_funds_change,
    lemma_juror_change, lemma_terms_change,
};
use crate::release::{lemma_announce_releases_frame, lemma_release_completes};
use crate::resolution::payments;
use crate::state::State;
use crate::types::{Address, Effect, EscrowModel, EscrowStatus, Event};
use vstd::prelude::*;

verus! {

impl State {
    /// Whether `who` is the treasury of the configured fee.
    pub open spec fn is_treasury(self, who: Address) -> bool {
        self.fee_config matches Some(c) && c.treasury == who
    }
}

/// Whether `call` may take `amount` of `asset` from `from`: a deposit takes the
/// escrow's total from its renter, a registration takes the stake from the
/// juror, and nothing else takes anything.
pub open spec fn may_collect(
    s: State,
    call: Call,
    asset: Address,
    from: Address,
    amount: i128,
) -> bool {
    match call {
        Call::Funds(FundsCall::Deposit { renter, id, .. }) => {
            &&& from == renter
            &&& from == s.escrows[id].renter
            &&& asset == s.escrows[id].asset
            &&& amount == s.escrows[id].total_amount
        },
        Call::Juror(JurorCall::RegisterJuror { juror, asset: a, stake }) => {
            &&& from == juror
            &&& asset == a
            &&& amount == stake
        },
        _ => false,
    }
}

/// Whether `call` may pay out `asset` to `to`: a release pays the host and the
/// treasury, an unwinding pays the renter, the settlement of a dispute pays its
/// parties, its jurors and the treasury, a withdrawal pays the juror, and
/// nothing else pays anyone.
pub open spec fn may_pay(s: State, call: Call, asset: Address, to: Address) -> bool {
    match call {
        Call::Funds(FundsCall::MutualCancel { id, .. }) => {
            &&& asset == s.escrows[id].asset
            &&& to == s.escrows[id].renter
        },
        Call::Funds(FundsCall::ConfirmMilestone { id, .. })
        | Call::Funds(FundsCall::ConfirmAllMilestones { id, .. })
        | Call::Funds(FundsCall::CheckAutoRelease { id, .. }) => {
            &&& asset == s.escrows[id].asset
            &&& to == s.escrows[id].host || s.is_treasury(to)
        },
        Call::Dispute(DisputeCall::ResolveDispute { id, i, .. }) => {
            &&& asset == s.escrows[id].asset
            &&& s.escrows[id].is_party(to) || s.is_treasury(to) || s.disputes[(
                id,
                i,
            )].jurors.contains(to)
        },
        Call::Dispute(DisputeCall::ForceResolveStaleDispute { id, .. }) => {
            &&& asset == s.escrows[id].asset
            &&& s.escrows[id].is_party(to) || s.is_treasury(to)
        },
        Call::Juror(JurorCall::WithdrawJurorStake { juror }) => {
            &&& asset == s.juror_stakes[juror].asset
            &&& to == juror
        },
        _ => false,
    }
}

/// Whether `effect` is one that `call` may ask for.
pub open spec fn may_ask(s: State, call: Call, effect: Effect) -> bool {
    match effect {
        Effect::Collect { asset, from, amount } => may_collect(s, call, asset, from, amount),
        Effect::Pay { asset, to, amount } => may_pay(s, call, asset, to),
        _ => true,
    }
}

/// Whether everything from position `n` on is one that `call` may ask for.
spec fn all_may_be_asked(s: State, call: Call, effects: Seq<Effect>, n: nat) -> bool {
    forall|k: int| n <= k < effects.len() ==> may_ask(s, call, #[trigger] effects[k])
}

proof fn lemma_transfers_of_releases(s: State, t: State, call: Call, e: EscrowModel, n: nat)
    requires
        all_may_be_asked(s, call, t.effects, s.effects.len()),
        may_pay(s, call, e.asset, e.host),
        t.fee_config == s.fee_config,
        t.fee_config matches Some(c) ==> may_pay(s, call, e.asset, c.treasury),
    ensures
        all_may_be_asked(s, call, t.announce_releases(e, n).effects, s.effects.len()),
    decreases n,
{
    if n > 0 {
        lemma_transfers_of_releases(s, t, call, e, (n - 1) as nat);
        lemma_announce_releases_frame(t, t, e, (n - 1) as nat);
        lemma_no_fee(t.announce_releases(e, (n - 1) as nat), e.host, e.milestones[n
            - 1].amount as int);
    }
}

/// Where no fee is configured, none is taken.
proof fn lemma_no_fee(s: State, to: Address, amount: int)
    ensures
        s.fee_config is None ==> s.fee_on(to, amount) == 0,
{
    if s.fee_config is None {
        assert(amount * 0 / 10_000 == 0) by (nonlinear_arith);
    }
}

proof fn lemma_transfers_of_release(s: State, t: State, call: Call, id: u32, i: u32, now: u64)
    requires
        all_may_be_asked(s, call, t.effects, s.effects.len()),
        t.escrows == s.escrows,
        may_pay(s, call, s.escrows[id].asset, s.escrows[id].host),
        t.fee_config == s.fee_config,
        t.fee_config matches Some(c) ==> may_pay(s, call, s.escrows[id].asset, c.treasury),
    ensures
        all_may_be_asked(s, call, t.release(id, i, now).effects, s.effects.len()),
{
    let e = s.escrows[id];
    lemma_no_fee(t, e.host, e.milestones[i as int].amount as int);
}

#[verifier::spinoff_prover]
proof fn lemma_funds_transfers(s: State, c: FundsCall)
    ensures
        all_may_be_asked(s, Call::Funds(c), s.funds_step(c).0.effects, s.effects.len()),
{
    reveal(State::funds_step);
    let call = Call::Funds(c);
    match c {
        FundsCall::ConfirmMilestone { renter, id, i, now } => {
            lemma_transfers_of_release(s, s.demand(renter), call, id, i, now);
        },
        FundsCall::ConfirmAllMilestones { renter, id, now } => {
            let d = s.demand(renter);
            let e = s.escrows[id];
            lemma_transfers_of_releases(s, d, call, e, e.milestones.len());
            lemma_announce_releases_frame(d, d, e, e.milestones.len());
        },
        FundsCall::CheckAutoRelease { id, i, now } => {
            lemma_transfers_of_release(s, s, call, id, i, now);
        },
        _ => {},
    }
}

proof fn lemma_resolve_transfers(s: State, id: u32, i: u32, now: u64)
    ensures
        all_may_be_asked(
            s,
            Call::Dispute(DisputeCall::ResolveDispute { id, i, now }),
            s.resolve_dispute(id, i, now).0.effects,
            s.effects.len(),
        ),
{
    let call = Call::Dispute(DisputeCall::ResolveDispute { id, i, now });
    if s.resolve_refusal(id, i) is None {
        let d = s.disputes[(id, i)];
        let e = s.escrows[id];
        let amount = e.milestones[i as int].amount as int;
        let share = d.juror_share(amount);
        let rest = amount - d.arbitration_fee(amount);
        let winner = if s.renter_wins(d) {
            e.renter
        } else {
            e.host
        };
        let p1 = s.pay_jurors(e.asset, d.jurors, share);
        assert forall|k: int| s.effects.len() <= k < p1.effects.len() implies may_ask(
            s,
            call,
            #[trigger] p1.effects[k],
        ) by {
            let j = k - s.effects.len();
            assert(p1.effects[k] == payments(e.asset, d.jurors, share)[j]);
            assert(d.jurors.contains(d.jurors[j]));
        }
        lemma_no_fee(p1, winner, rest);
    }
}

proof fn lemma_force_transfers(s: State, id: u32, i: u32, now: u64)
    ensures
        all_may_be_asked(
            s,
            Call::Dispute(DisputeCall::ForceResolveStaleDispute { id, i, now }),
            s.force_resolve_stale_dispute(id, i, now).0.effects,
            s.effects.len(),
        ),
{
    if s.force_refusal(id, i, now) is None {
        let e = s.escrows[id];
        let amount = e.milestones[i as int].amount as int;
        let p1 = s.pay_out(e.asset, e.renter, amount / 2);
        lemma_no_fee(s, e.renter, amount / 2);
        lemma_no_fee(p1, e.host, amount - amount / 2);
    }
}

#[verifier::spinoff_prover]
proof fn lemma_dispute_transfers(s: State, c: DisputeCall)
    ensures
        all_may_be_asked(s, Call::Dispute(c), s.dispute_step(c).0.effects, s.effects.len()),
{
    reveal(State::dispute_step);
    match c {
        DisputeCall::ResolveDispute { id, i, now } => lemma_resolve_transfers(s, id, i, now),
        DisputeCall::ForceResolveStaleDispute { id, i, now } => lemma_force_transfers(
            s,
            id,
            i,
            now,
        ),
        _ => {},
    }
}

#[verifier::spinoff_prover]
proof fn lemma_terms_transfers(s: State, c: TermsCall)
    ensures
        all_may_be_asked(s, Call::Terms(c), s.terms_step(c).0.effects, s.effects.len()),
{
    reveal(State::terms_step);
}

/// Tokens move only where they should: a call takes them only from whoever
/// signs it, for the escrow or the stake it is about, and pays them only to
/// those who are entitled to them. In particular no proposal and no governance
/// call moves any.
#[verifier::spinoff_prover]
pub proof fn law_only_entitled_transfers(s: State, call: Call, k: int)
    requires
        s.effects.len() <= k < s.step(call).0.effects.len(),
    ensures
        may_ask(s, call, s.step(call).0.effects[k]),
{
    let t = s.step(call).0;
    match call {
        Call::Admin(c) => lemma_admin_change(s, c),
        Call::Terms(c) => lemma_terms_transfers(s, c),
        Call::Funds(c) => lemma_funds_transfers(s, c),
        Call::Dispute(c) => lemma_dispute_transfers(s, c),
        Call::Juror(c) => {
            reveal(State::juror_step);
        },
    }
    assert(may_ask(s, call, t.effects[k]));
}

/// Whether `effect` announces the completion of an escrow.
pub open spec fn announces_completion(effect: Effect) -> bool {
    effect matches Effect::Publish { event } && event is Complete
}

/// Whether no completion is announced from position `n` on.
spec fn quiet(effects: Seq<Effect>, n: nat) -> bool {
    forall|k: int| n <= k < effects.len() ==> !announces_completion(#[trigger] effects[k])
}

/// Whether what a step from `s` to `t` announces about completions is right: a
/// call that completes escrow `id` announces it, once, as the last thing it
/// does; no other call announces any.
spec fn rightly_announced(s: State, t: State, id: u32) -> bool {
    if t.escrows[id].status == EscrowStatus::Completed && s.escrows[id].status
        != EscrowStatus::Completed {
        &&& t.effects.len() > s.effects.len()
        &&& t.effects.last() == Effect::Publish { event: Event::Complete { id } }
        &&& quiet(t.effects.drop_last(), s.effects.len())
    } else {
        quiet(t.effects, s.effects.len())
    }
}

proof fn lemma_releases_quiet(s: State, t: State, e: EscrowModel, n: nat)
    requires
        quiet(t.effects, s.effects.len()),
    ensures
        quiet(t.announce_releases(e, n).effects, s.effects.len()),
    decreases n,
{
    if n > 0 {
        lemma_releases_quiet(s, t, e, (n - 1) as nat);
    }
}

proof fn lemma_release_announced(s: State, t: State, id: u32, i: u32, now: u64)
    requires
        t.effects.len() >= s.effects.len(),
        quiet(t.effects, s.effects.len()),
        t.escrows == s.escrows,
        s.release_refusal(s.escrows[id], i) is None,
    ensures
        rightly_announced(s, t.release(id, i, now), id),
{
    let e = s.escrows[id];
    let u = t.release(id, i, now);
    let announced = t.announce_release(e, i as int);
    lemma_release_completes(e, i as int, now);
    assert(quiet(announced.effects, s.effects.len()));
    if e.is_last_pending(i as int) {
        assert(u.effects.drop_last() =~= announced.effects);
    }
}

proof fn lemma_confirm_all_announced(s: State, renter: Address, id: u32, now: u64)
    requires
        s.escrows.contains_key(id) ==> s.escrows[id].status_ok(),
    ensures
        rightly_announced(s, s.confirm_all_milestones(renter, id, now).0, id),
{
    let d = s.demand(renter);
    let e = s.escrows[id];
    let t = s.confirm_all_milestones(renter, id, now).0;
    let announced = d.announce_releases(e, e.milestones.len());
    lemma_releases_quiet(s, d, e, e.milestones.len());
    lemma_announce_releases_frame(d, d, e, e.milestones.len());
    lemma_announcements_add(d, e, e.milestones.len());
    if d.confirm_all_refusal(renter, id) is None && !e.all_released() {
        assert(t.effects.drop_last() =~= announced.effects);
    }
}

proof fn lemma_settlement_announced(s: State, paid: State, t: State, id: u32, event: Event)
    requires
        quiet(paid.effects, s.effects.len()),
        paid.effects.len() >= s.effects.len(),
        !(event is Complete),
        s.escrows[id].status == EscrowStatus::Disputed,
        t == paid.announce_settlement(id, event),
    ensures
        rightly_announced(s, t, id),
{
    if paid.escrows[id].status == EscrowStatus::Completed {
        assert(t.effects.drop_last() =~= paid.publish(event).effects);
    }
}

proof fn lemma_resolve_announced(s: State, id: u32, i: u32, now: u64)
    requires
        s.consistent(),
    ensures
        rightly_announced(s, s.resolve_dispute(id, i, now).0, id),
{
    if s.resolve_refusal(id, i) is None {
        let d = s.disputes[(id, i)];
        let e = s.escrows[id];
        assert(s.dispute_ok((id, i)));
        assert(e.status_ok());
        let t = s.resolve_dispute(id, i, now).0;
        let amount = e.milestones[i as int].amount as int;
        let share = d.juror_share(amount);
        let rest = amount - d.arbitration_fee(amount);
        let w = s.renter_wins(d);
        let winner = if w {
            e.renter
        } else {
            e.host
        };
        let p1 = s.pay_jurors(e.asset, d.jurors, share);
        assert forall|k: int| s.effects.len() <= k < p1.effects.len() implies
            !announces_completion(#[trigger] p1.effects[k]) by {
            assert(p1.effects[k] == payments(e.asset, d.jurors, share)[k - s.effects.len()]);
        }
        let p2 = p1.pay_out(e.asset, winner, rest);
        assert(quiet(p2.effects, s.effects.len()));
        let at: u64 = if w {
            0
        } else {
            now
        };
        let paid = State {
            effects: p2.effects,
            escrows: s.escrows.insert(id, e.settle(i as int, at)),
            ..t
        };
        let event = Event::Resolved { id, milestone_index: i, recipient: winner };
        assert(t == paid.announce_settlement(id, event));
        lemma_settlement_announced(s, paid, t, id, event);
    }
}

proof fn lemma_force_announced(s: State, id: u32, i: u32, now: u64)
    requires
        s.consistent(),
    ensures
        rightly_announced(s, s.force_resolve_stale_dispute(id, i, now).0, id),
{
    if s.force_refusal(id, i, now) is None {
        let e = s.escrows[id];
        assert(s.dispute_ok((id, i)));
        assert(e.status_ok());
        let t = s.force_resolve_stale_dispute(id, i, now).0;
        let amount = e.milestones[i as int].amount as int;
        let p2 = s.pay_out(e.asset, e.renter, amount / 2).pay_out(
            e.asset,
            e.host,
            amount - amount / 2,
        );
        assert(quiet(p2.effects, s.effects.len()));
        let paid = State {
            effects: p2.effects,
            escrows: s.escrows.insert(id, e.settle(i as int, now)),
            ..t
        };
        let event = Event::Stale { id, milestone_index: i };
        assert(t == paid.announce_settlement(id, event));
        lemma_settlement_announced(s, paid, t, id, event);
    }
}

#[verifier::spinoff_prover]
proof fn lemma_funds_announced(s: State, c: FundsCall)
    requires
        s.consistent(),
    ensures
        rightly_announced(s, s.funds_step(c).0, funds_target(c)),
{
    reveal(State::funds_step);
    match c {
        FundsCall::ConfirmMilestone { renter, id, i, now } => {
            let d = s.demand(renter);
            if s.confirm_milestone(renter, id, i, now).1 is Ok {
                assert(s.release_refusal(s.escrows[id], i) is None);
                lemma_release_announced(s, d, id, i, now);
            }
        },
        FundsCall::ConfirmAllMilestones { renter, id, now } => {
            lemma_confirm_all_announced(s, renter, id, now);
        },
        FundsCall::CheckAutoRelease { id, i, now } => {
            if s.auto_release_refusal(id, i, now) is None {
                lemma_release_announced(s, s, id, i, now);
            }
        },
        _ => {},
    }
}

#[verifier::spinoff_prover]
proof fn lemma_dispute_announced(s: State, c: DisputeCall)
    requires
        s.consistent(),
    ensures
        rightly_announced(s, s.dispute_step(c).0, dispute_target(c).0),
{
    reveal(State::dispute_step);
    match c {
        DisputeCall::ResolveDispute { id, i, now } => lemma_resolve_announced(s, id, i, now),
        DisputeCall::ForceResolveStaleDispute { id, i, now } => lemma_force_announced(
            s,
            id,
            i,
            now,
        ),
        _ => {},
    }
}

#[verifier::spinoff_prover]
proof fn lemma_terms_quiet(s: State, c: TermsCall)
    ensures
        quiet(s.terms_step(c).0.effects, s.effects.len()),
{
    reveal(State::terms_step);
}

/// Whoever watches the events learns of every completion: the call that
/// completes an escrow announces it as the last thing it does, and nothing else
/// announces one.
#[verifier::spinoff_prover]
pub proof fn law_completions_are_announced(s: State, call: Call, id: u32, k: int)
    requires
        s.wf(),
        s.consistent(),
        s.escrows.contains_key(id),
        s.effects.len() <= k < s.step(call).0.effects.len(),
    ensures
        ({
            let t = s.step(call).0;
            t.effects[k] == (Effect::Publish { event: Event::Complete { id } }) <==> {
                &&& t.escrows[id].status == EscrowStatus::Completed
                &&& s.escrows[id].status != EscrowStatus::Completed
                &&& k == t.effects.len() - 1
            }
        }),
{
    let t = s.step(call).0;
    match call {
        Call::Admin(c) => {
            lemma_admin_change(s, c);
            assert(quiet(t.effects, s.effects.len()));
        },
        Call::Terms(c) => {
            lemma_terms_change(s, c);
            lemma_terms_quiet(s, c);
        },
        Call::Funds(c) => {
            lemma_funds_change(s, c);
            lemma_funds_announced(s, c);
        },
        Call::Dispute(c) => {
            lemma_dispute_change(s, c);
            lemma_dispute_announced(s, c);
        },
        Call::Juror(c) => {
            lemma_juror_change(s, c);
            reveal(State::juror_step);
            assert(quiet(t.effects, s.effects.len()));
        },
    }
    assert(announces_completion(Effect::Publish { event: Event::Complete { id } }));
    if k < t.effects.len() - 1 {
        assert(t.effects.drop_last()[k] == t.effects[k]);
    }
}

} // verus!
