//! What the admin key can and cannot do.

use crate::errors::{Error, Failure};
use crate::laws::calls::{signers, AdminCall, Call, DisputeCall, FundsCall, JurorCall, TermsCall};
use crate::laws::changes::{
    calls_off, lemma_admin_change, lemma_dispute_change, lemma_funds_change, lemma_juror_change,
    lemma_terms_change,
};
use crate::release::lemma_announce_releases_frame;
use crate::state::State;
use crate::types::{Address, JurorParams};
use vstd::prelude::*;

verus! {

/// The admin has no power over funds, escrows, disputes, stakes or reputation:
/// a governance call leaves all of them as they are, and asks for nothing but
/// the caller's signature.
pub proof fn law_admin_touches_no_funds(s: State, c: AdminCall)
    ensures
        ({
            let t = s.step(Call::Admin(c)).0;
            &&& t.escrows == s.escrows
            &&& t.escrow_count == s.escrow_count
            &&& t.disputes == s.disputes
            &&& t.juror_pool == s.juror_pool
            &&& t.juror_stakes == s.juror_stakes
            &&& t.active_disputes == s.active_disputes
            &&& t.reputation == s.reputation
            &&& t.party_escrows == s.party_escrows
            &&& t.effects == s.demand_all(signers(Call::Admin(c))).effects
        }),
{
    lemma_admin_change(s, c);
}

/// Whether `c` is the first setup of a contract.
pub open spec fn sets_up(s: State, c: AdminCall) -> bool {
    c is Initialize && s.admin is None
}

/// Nobody but the admin configures anything: where a call changes the
/// configuration, either the admin signs it, or it is the first setup, or the
/// proposed admin takes over, which changes nothing else.
#[verifier::spinoff_prover]
pub proof fn law_only_admin_configures(s: State, call: Call)
    requires
        !s.same_config(s.step(call).0),
    ensures
        ({
            let t = s.step(call).0;
            ||| s.admin is Some && signers(call) == seq![s.admin->0]
            ||| call matches Call::Admin(c) && sets_up(s, c)
            ||| {
                &&& call matches Call::Admin(AdminCall::AcceptAdminTransfer { new })
                &&& s.pending_admin == Some(new)
                &&& s.same_config(State { admin: s.admin, pending_admin: s.pending_admin, ..t })
            }
        }),
{
    match call {
        Call::Admin(c) => {
            reveal(State::admin_step);
        },
        Call::Terms(c) => lemma_terms_change(s, c),
        Call::Funds(c) => lemma_funds_change(s, c),
        Call::Dispute(c) => lemma_dispute_change(s, c),
        Call::Juror(c) => lemma_juror_change(s, c),
    }
}

/// The admin role is handed over in two steps: a proposal leaves the present
/// admin in place, nobody but the proposed address can take over, and that
/// address becomes the admin when it does.
pub proof fn law_admin_handoff(s: State, current: Address, new: Address, other: Address)
    requires
        s.transfer_admin(current, new).1 is Ok,
    ensures
        s.transfer_admin(current, new).0.admin == s.admin,
        ({
            let (t, r) = s.transfer_admin(current, new).0.accept_admin_transfer(new);
            r is Ok && t.admin == Some(new) && t.pending_admin is None
        }),
        other != new ==> {
            let (t, r) = s.transfer_admin(current, new).0.accept_admin_transfer(other);
            r == Err::<(), Failure>(Failure::Refused(Error::NotAuthorized)) && t.admin == s.admin
        },
{
}

/// Only one setup ever goes through.
pub proof fn law_one_setup(s: State, admin: Address, again: Address)
    requires
        s.initialize(admin).1 is Ok,
    ensures
        s.initialize(admin).0.initialize(again).1 == Err::<(), Failure>(
            Failure::Refused(Error::AlreadyInitialized),
        ),
{
}

impl State {
    /// The same state, paused or not.
    pub open spec fn with_paused(self, paused: bool) -> State {
        State { paused, ..self }
    }

    /// The same state under other rules for later disputes.
    pub open spec fn with_rules(self, params: JurorParams, weighted: bool, window: u64) -> State {
        State {
            juror_params: params,
            stake_weighted_voting: weighted,
            dispute_voting_window: window,
            ..self
        }
    }
}

#[verifier::spinoff_prover]
proof fn lemma_pause_admin(s: State, c: AdminCall, p: bool)
    requires
        !(c is SetPaused),
    ensures
        s.with_paused(p).admin_step(c) == (s.admin_step(c).0.with_paused(p), s.admin_step(c).1),
{
    reveal(State::admin_step);
}

#[verifier::spinoff_prover]
proof fn lemma_pause_edit(s: State, c: TermsCall, p: bool)
    requires
        c is AddMilestone || c is RemoveMilestone || c is UpdateMilestone,
    ensures
        s.with_paused(p).terms_step(c) == (s.terms_step(c).0.with_paused(p), s.terms_step(c).1),
{
    reveal(State::terms_step);
    let renter = match c {
        TermsCall::AddMilestone { renter, .. } => renter,
        TermsCall::RemoveMilestone { renter, .. } => renter,
        TermsCall::UpdateMilestone { renter, .. } => renter,
        _ => 0,
    };
    assert(s.with_paused(p).demand(renter) == s.demand(renter).with_paused(p));
}

#[verifier::spinoff_prover]
proof fn lemma_pause_answer(s: State, c: TermsCall, p: bool)
    requires
        c is AcceptEscrow || calls_off(c),
    ensures
        s.with_paused(p).terms_step(c) == (s.terms_step(c).0.with_paused(p), s.terms_step(c).1),
{
    reveal(State::terms_step);
}

proof fn lemma_pause_terms(s: State, c: TermsCall, p: bool)
    requires
        !(c is CreateEscrow),
    ensures
        s.with_paused(p).terms_step(c) == (s.terms_step(c).0.with_paused(p), s.terms_step(c).1),
{
    if c is AcceptEscrow || calls_off(c) {
        lemma_pause_answer(s, c, p);
    } else {
        lemma_pause_edit(s, c, p);
    }
}

/// `x` with the pause and the rules for later disputes of `like`.
spec fn dressed(x: State, like: State) -> State {
    State {
        paused: like.paused,
        juror_params: like.juror_params,
        stake_weighted_voting: like.stake_weighted_voting,
        dispute_voting_window: like.dispute_voting_window,
        ..x
    }
}

/// Settling a dispute by vote reads neither the pause nor the rules for later
/// disputes.
proof fn lemma_resolve_dressed(s: State, t: State, id: u32, i: u32, now: u64)
    requires
        t == dressed(s, t),
    ensures
        t.resolve_dispute(id, i, now) == (
            dressed(s.resolve_dispute(id, i, now).0, t),
            s.resolve_dispute(id, i, now).1,
        ),
{
    let d = s.disputes[(id, i)];
    let e = s.escrows[id];
    assert(t.settlement_fits(d, e) == s.settlement_fits(d, e));
    assert(t.resolve_refusal(id, i) == s.resolve_refusal(id, i));
    if s.resolve_refusal(id, i) is None {
        let amount = e.milestones[i as int].amount as int;
        let share = d.juror_share(amount);
        let rest = amount - d.arbitration_fee(amount);
        let winner = if s.renter_wins(d) {
            e.renter
        } else {
            e.host
        };
        let s1 = s.pay_jurors(e.asset, d.jurors, share);
        let t1 = t.pay_jurors(e.asset, d.jurors, share);
        assert(t1 == dressed(s1, t));
        assert(t1.pay_out(e.asset, winner, rest) == dressed(
            s1.pay_out(e.asset, winner, rest),
            t,
        ));
    }
}

/// So does splitting a disputed amount.
proof fn lemma_force_dressed(s: State, t: State, id: u32, i: u32, now: u64)
    requires
        t == dressed(s, t),
    ensures
        t.force_resolve_stale_dispute(id, i, now) == (
            dressed(s.force_resolve_stale_dispute(id, i, now).0, t),
            s.force_resolve_stale_dispute(id, i, now).1,
        ),
{
    let e = s.escrows[id];
    assert(t.force_refusal(id, i, now) == s.force_refusal(id, i, now));
    if s.force_refusal(id, i, now) is None {
        let amount = e.milestones[i as int].amount as int;
        let s1 = s.pay_out(e.asset, e.renter, amount / 2);
        let t1 = t.pay_out(e.asset, e.renter, amount / 2);
        assert(t1 == dressed(s1, t));
        assert(t1.pay_out(e.asset, e.host, amount - amount / 2) == dressed(
            s1.pay_out(e.asset, e.host, amount - amount / 2),
            t,
        ));
    }
}

/// So does everything else on a dispute that was raised already.
#[verifier::spinoff_prover]
proof fn lemma_open_dispute_dressed(s: State, t: State, c: DisputeCall)
    requires
        t == dressed(s, t),
        !(c is RaiseDispute),
    ensures
        t.dispute_step(c) == (dressed(s.dispute_step(c).0, t), s.dispute_step(c).1),
{
    reveal(State::dispute_step);
    match c {
        DisputeCall::RaiseDispute { .. } => {},
        DisputeCall::AddDisputeEvidence { caller, id, i, evidence } => {
            assert(t.demand(caller) == dressed(s.demand(caller), t));
        },
        DisputeCall::ExtendDisputeDeadline { renter, host, id, i, extra } => {
            assert(t.demand(renter).demand(host) == dressed(s.demand(renter).demand(host), t));
        },
        DisputeCall::VoteDispute { juror, id, i, vote_for_renter } => {
            assert(t.demand(juror) == dressed(s.demand(juror), t));
        },
        DisputeCall::ResolveDispute { id, i, now } => lemma_resolve_dressed(s, t, id, i, now),
        DisputeCall::ForceResolveStaleDispute { id, i, now } => lemma_force_dressed(
            s,
            t,
            id,
            i,
            now,
        ),
    }
}

/// Raising a dispute does not read the pause.
proof fn lemma_raise_paused(
    s: State,
    p: bool,
    caller: Address,
    id: u32,
    i: u32,
    evidence: Seq<u8>,
    now: u64,
)
    ensures
        s.with_paused(p).raise_dispute(caller, id, i, evidence, now) == (
            s.raise_dispute(caller, id, i, evidence, now).0.with_paused(p),
            s.raise_dispute(caller, id, i, evidence, now).1,
        ),
{
    let d = s.demand(caller);
    let t = s.with_paused(p).demand(caller);
    assert(t == d.with_paused(p));
    assert(t.raise_refusal(caller, id, i, evidence, now) == d.raise_refusal(
        caller,
        id,
        i,
        evidence,
        now,
    ));
    assert(t.new_dispute(caller, id, i, evidence, now) == d.new_dispute(
        caller,
        id,
        i,
        evidence,
        now,
    ));
}

#[verifier::spinoff_prover]
proof fn lemma_pause_dispute(s: State, c: DisputeCall, p: bool)
    ensures
        s.with_paused(p).dispute_step(c) == (s.dispute_step(c).0.with_paused(p), s.dispute_step(
            c,
        ).1),
{
    let t = s.with_paused(p);
    if let DisputeCall::RaiseDispute { caller, id, i, evidence, now } = c {
        reveal(State::dispute_step);
        lemma_raise_paused(s, p, caller, id, i, evidence, now);
    } else {
        lemma_open_dispute_dressed(s, t, c);
        lemma_dispute_change(s, c);
        assert(dressed(s.dispute_step(c).0, t) == s.dispute_step(c).0.with_paused(p));
    }
}

/// Releasing a milestone does not read the pause.
proof fn lemma_release_paused(s: State, p: bool, id: u32, i: u32, now: u64)
    ensures
        s.with_paused(p).release_refusal(s.escrows[id], i) == s.release_refusal(s.escrows[id], i),
        s.with_paused(p).release(id, i, now) == s.release(id, i, now).with_paused(p),
{
    let e = s.escrows[id];
    let t = s.with_paused(p);
    assert(t.announce_release(e, i as int) == s.announce_release(e, i as int).with_paused(p));
}

proof fn lemma_confirm_all_paused(s: State, p: bool, renter: Address, id: u32, now: u64)
    ensures
        s.with_paused(p).confirm_all_milestones(renter, id, now) == (
            s.confirm_all_milestones(renter, id, now).0.with_paused(p),
            s.confirm_all_milestones(renter, id, now).1,
        ),
{
    let e = s.escrows[id];
    let d = s.demand(renter);
    let t = s.with_paused(p).demand(renter);
    assert(t == d.with_paused(p));
    assert(t.confirm_all_refusal(renter, id) == d.confirm_all_refusal(renter, id));
    lemma_announce_releases_frame(d, t, e, e.milestones.len());
}

#[verifier::spinoff_prover]
proof fn lemma_pause_funds(s: State, c: FundsCall, p: bool)
    requires
        !(c is Deposit),
    ensures
        s.with_paused(p).funds_step(c) == (s.funds_step(c).0.with_paused(p), s.funds_step(c).1),
{
    reveal(State::funds_step);
    let t = s.with_paused(p);
    match c {
        FundsCall::Deposit { .. } => {},
        FundsCall::MutualCancel { renter, host, id } => {
            assert(t.demand(renter).demand(host) == s.demand(renter).demand(host).with_paused(p));
        },
        FundsCall::ConfirmMilestone { renter, id, i, now } => {
            assert(t.demand(renter) == s.demand(renter).with_paused(p));
            lemma_release_paused(s.demand(renter), p, id, i, now);
        },
        FundsCall::ConfirmAllMilestones { renter, id, now } => {
            lemma_confirm_all_paused(s, p, renter, id, now);
        },
        FundsCall::CheckAutoRelease { id, i, now } => lemma_release_paused(s, p, id, i, now),
        FundsCall::ExtendMilestoneDeadline { renter, id, i, extra } => {
            assert(t.demand(renter) == s.demand(renter).with_paused(p));
        },
    }
}

#[verifier::spinoff_prover]
proof fn lemma_pause_juror(s: State, c: JurorCall, p: bool)
    ensures
        s.with_paused(p).juror_step(c) == (s.juror_step(c).0.with_paused(p), s.juror_step(c).1),
{
    reveal(State::juror_step);
}

/// A pause makes no difference to any call but the creation and the funding of
/// an escrow (and the pausing itself): escrows under way go on as before.
pub proof fn law_pause_leaves_the_rest(s: State, call: Call, p: bool)
    requires
        !(call matches Call::Admin(c) && c is SetPaused),
        !(call matches Call::Terms(c) && c is CreateEscrow),
        !(call matches Call::Funds(c) && c is Deposit),
    ensures
        s.with_paused(p).step(call) == (s.step(call).0.with_paused(p), s.step(call).1),
{
    match call {
        Call::Admin(c) => lemma_pause_admin(s, c, p),
        Call::Terms(c) => lemma_pause_terms(s, c, p),
        Call::Funds(c) => lemma_pause_funds(s, c, p),
        Call::Dispute(c) => lemma_pause_dispute(s, c, p),
        Call::Juror(c) => lemma_pause_juror(s, c, p),
    }
}

/// While the contract is paused, no escrow is created and none is funded.
#[verifier::spinoff_prover]
pub proof fn law_pause_blocks(s: State, call: Call)
    requires
        s.paused,
        call matches Call::Terms(c) ==> c is CreateEscrow,
        call matches Call::Funds(c) ==> c is Deposit,
        call is Terms || call is Funds,
    ensures
        s.step(call).1 == Some(Failure::Refused(Error::ContractPaused)),
{
    reveal(State::terms_step);
    reveal(State::funds_step);
}

/// The rules of an open dispute are those of the moment it was raised: later
/// changes of the juror parameters, of the voting rule or of the voting window
/// make no difference to voting, to the resolution or to a split.
pub proof fn law_rules_are_fixed_when_raised(
    s: State,
    c: DisputeCall,
    params: JurorParams,
    weighted: bool,
    window: u64,
)
    requires
        !(c is RaiseDispute),
    ensures
        s.with_rules(params, weighted, window).step(Call::Dispute(c)) == (
            s.step(Call::Dispute(c)).0.with_rules(params, weighted, window),
            s.step(Call::Dispute(c)).1,
        ),
{
    let t = s.with_rules(params, weighted, window);
    lemma_open_dispute_dressed(s, t, c);
    lemma_dispute_change(s, c);
    assert(dressed(s.dispute_step(c).0, t) == s.dispute_step(c).0.with_rules(
        params,
        weighted,
        window,
    ));
}

} // verus!
