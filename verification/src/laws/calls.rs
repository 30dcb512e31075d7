//! The calls that change the contract, as one type.

use crate::errors::Failure;
use crate::state::State;
use crate::types::{Address, Effect, EscrowModel, JurorParams};
use vstd::prelude::*;

verus! {

/// The calls of governance.
pub enum AdminCall {
    Initialize { admin: Address },
    TransferAdmin { current: Address, new: Address },
    AcceptAdminTransfer { new: Address },
    SetDisputeVotingWindow { admin: Address, seconds: u64 },
    SetFeeConfig { admin: Address, bps: u32, treasury: Address },
    SetFeeExempt { admin: Address, party: Address, exempt: bool },
    SetStakeWeightedVoting { admin: Address, enabled: bool },
    SetJurorParams { admin: Address, params: JurorParams },
    SetPaused { admin: Address, paused: bool },
}

/// The calls on an escrow before it is funded.
pub enum TermsCall {
    CreateEscrow {
        renter: Address,
        host: Address,
        asset: Address,
        terms: Seq<(Seq<u8>, i128, u64)>,
        requires_host_acceptance: bool,
        now: u64,
    },
    AcceptEscrow { host: Address, id: u32 },
    RejectEscrow { host: Address, id: u32 },
    AddMilestone { renter: Address, id: u32, description: Seq<u8>, amount: i128, offset: u64 },
    RemoveMilestone { renter: Address, id: u32, i: u32 },
    UpdateMilestone {
        renter: Address,
        id: u32,
        i: u32,
        description: Seq<u8>,
        amount: i128,
        offset: u64,
    },
    CancelEscrow { caller: Address, id: u32 },
    ExpireUnfundedEscrow { id: u32, now: u64 },
}

/// The calls that fund an escrow and release what it holds.
pub enum FundsCall {
    Deposit { renter: Address, id: u32, now: u64 },
    MutualCancel { renter: Address, host: Address, id: u32 },
    ConfirmMilestone { renter: Address, id: u32, i: u32, now: u64 },
    ConfirmAllMilestones { renter: Address, id: u32, now: u64 },
    CheckAutoRelease { id: u32, i: u32, now: u64 },
    ExtendMilestoneDeadline { renter: Address, id: u32, i: u32, extra: u64 },
}

/// The calls on disputes.
pub enum DisputeCall {
    RaiseDispute { caller: Address, id: u32, i: u32, evidence: Seq<u8>, now: u64 },
    AddDisputeEvidence { caller: Address, id: u32, i: u32, evidence: Seq<u8> },
    ExtendDisputeDeadline { renter: Address, host: Address, id: u32, i: u32, extra: u64 },
    VoteDispute { juror: Address, id: u32, i: u32, vote_for_renter: bool },
    ResolveDispute { id: u32, i: u32, now: u64 },
    ForceResolveStaleDispute { id: u32, i: u32, now: u64 },
}

/// The calls on juror stakes.
pub enum JurorCall {
    RegisterJuror { juror: Address, asset: Address, stake: i128 },
    WithdrawJurorStake { juror: Address },
}

/// A call that may change the contract, with its arguments.
pub enum Call {
    Admin(AdminCall),
    Terms(TermsCall),
    Funds(FundsCall),
    Dispute(DisputeCall),
    Juror(JurorCall),
}

/// Why a call with result `r` failed.
pub open spec fn failure<T>(r: Result<T, Failure>) -> Option<Failure> {
    match r {
        Ok(_) => None,
        Err(f) => Some(f),
    }
}

impl State {
    /// The state after `call`, and why the call failed, if it did.
    #[verifier::opaque]
    pub open spec fn admin_step(self, call: AdminCall) -> (State, Option<Failure>) {
        match call {
            AdminCall::Initialize { admin } => {
                let (t, r) = self.initialize(admin);
                (t, failure(r))
            },
            AdminCall::TransferAdmin { current, new } => {
                let (t, r) = self.transfer_admin(current, new);
                (t, failure(r))
            },
            AdminCall::AcceptAdminTransfer { new } => {
                let (t, r) = self.accept_admin_transfer(new);
                (t, failure(r))
            },
            AdminCall::SetDisputeVotingWindow { admin, seconds } => {
                let (t, r) = self.set_dispute_voting_window(admin, seconds);
                (t, failure(r))
            },
            AdminCall::SetFeeConfig { admin, bps, treasury } => {
                let (t, r) = self.set_fee_config(admin, bps, treasury);
                (t, failure(r))
            },
            AdminCall::SetFeeExempt { admin, party, exempt } => {
                let (t, r) = self.set_fee_exempt(admin, party, exempt);
                (t, failure(r))
            },
            AdminCall::SetStakeWeightedVoting { admin, enabled } => {
                let (t, r) = self.set_stake_weighted_voting(admin, enabled);
                (t, failure(r))
            },
            AdminCall::SetJurorParams { admin, params } => {
                let (t, r) = self.set_juror_params(admin, params);
                (t, failure(r))
            },
            AdminCall::SetPaused { admin, paused } => {
                let (t, r) = self.set_paused(admin, paused);
                (t, failure(r))
            },
        }
    }

    /// The state after `call`, and why the call failed, if it did.
    #[verifier::opaque]
    pub open spec fn terms_step(self, call: TermsCall) -> (State, Option<Failure>) {
        match call {
            TermsCall::CreateEscrow { renter, host, asset, terms, requires_host_acceptance, now } => {
                let (t, r) = self.create_escrow(
                    renter,
                    host,
                    asset,
                    terms,
                    requires_host_acceptance,
                    now,
                );
                (t, failure(r))
            },
            TermsCall::AcceptEscrow { host, id } => {
                let (t, r) = self.accept_escrow(host, id);
                (t, failure(r))
            },
            TermsCall::RejectEscrow { host, id } => {
                let (t, r) = self.reject_escrow(host, id);
                (t, failure(r))
            },
            TermsCall::AddMilestone { renter, id, description, amount, offset } => {
                let (t, r) = self.add_milestone(renter, id, description, amount, offset);
                (t, failure(r))
            },
            TermsCall::RemoveMilestone { renter, id, i } => {
                let (t, r) = self.remove_milestone(renter, id, i);
                (t, failure(r))
            },
            TermsCall::UpdateMilestone { renter, id, i, description, amount, offset } => {
                let (t, r) = self.update_milestone(renter, id, i, description, amount, offset);
                (t, failure(r))
            },
            TermsCall::CancelEscrow { caller, id } => {
                let (t, r) = self.cancel_escrow(caller, id);
                (t, failure(r))
            },
            TermsCall::ExpireUnfundedEscrow { id, now } => {
                let (t, r) = self.expire_unfunded_escrow(id, now);
                (t, failure(r))
            },
        }
    }

    /// The state after `call`, and why the call failed, if it did.
    #[verifier::opaque]
    pub open spec fn funds_step(self, call: FundsCall) -> (State, Option<Failure>) {
        match call {
            FundsCall::Deposit { renter, id, now } => {
                let (t, r) = self.deposit(renter, id, now);
                (t, failure(r))
            },
            FundsCall::MutualCancel { renter, host, id } => {
                let (t, r) = self.mutual_cancel(renter, host, id);
                (t, failure(r))
            },
            FundsCall::ConfirmMilestone { renter, id, i, now } => {
                let (t, r) = self.confirm_milestone(renter, id, i, now);
                (t, failure(r))
            },
            FundsCall::ConfirmAllMilestones { renter, id, now } => {
                let (t, r) = self.confirm_all_milestones(renter, id, now);
                (t, failure(r))
            },
            FundsCall::CheckAutoRelease { id, i, now } => {
                let (t, r) = self.check_auto_release(id, i, now);
                (t, failure(r))
            },
            FundsCall::ExtendMilestoneDeadline { renter, id, i, extra } => {
                let (t, r) = self.extend_milestone_deadline(renter, id, i, extra);
                (t, failure(r))
            },
        }
    }

    /// The state after `call`, and why the call failed, if it did.
    #[verifier::opaque]
    pub open spec fn dispute_step(self, call: DisputeCall) -> (State, Option<Failure>) {
        match call {
            DisputeCall::RaiseDispute { caller, id, i, evidence, now } => {
                let (t, r) = self.raise_dispute(caller, id, i, evidence, now);
                (t, failure(r))
            },
            DisputeCall::AddDisputeEvidence { caller, id, i, evidence } => {
                let (t, r) = self.add_dispute_evidence(caller, id, i, evidence);
                (t, failure(r))
            },
            DisputeCall::ExtendDisputeDeadline { renter, host, id, i, extra } => {
                let (t, r) = self.extend_dispute_deadline(renter, host, id, i, extra);
                (t, failure(r))
            },
            DisputeCall::VoteDispute { juror, id, i, vote_for_renter } => {
                let (t, r) = self.vote_dispute(juror, id, i, vote_for_renter);
                (t, failure(r))
            },
            DisputeCall::ResolveDispute { id, i, now } => {
                let (t, r) = self.resolve_dispute(id, i, now);
                (t, failure(r))
            },
            DisputeCall::ForceResolveStaleDispute { id, i, now } => {
                let (t, r) = self.force_resolve_stale_dispute(id, i, now);
                (t, failure(r))
            },
        }
    }

    /// The state after `call`, and why the call failed, if it did.
    #[verifier::opaque]
    pub open spec fn juror_step(self, call: JurorCall) -> (State, Option<Failure>) {
        match call {
            JurorCall::RegisterJuror { juror, asset, stake } => {
                let (t, r) = self.register_juror(juror, asset, stake);
                (t, failure(r))
            },
            JurorCall::WithdrawJurorStake { juror } => {
                let (t, r) = self.withdraw_juror_stake(juror);
                (t, failure(r))
            },
        }
    }

    /// The state after `call`, and why the call failed, if it did.
    pub open spec fn step(self, call: Call) -> (State, Option<Failure>) {
        match call {
            Call::Admin(c) => self.admin_step(c),
            Call::Terms(c) => self.terms_step(c),
            Call::Funds(c) => self.funds_step(c),
            Call::Dispute(c) => self.dispute_step(c),
            Call::Juror(c) => self.juror_step(c),
        }
    }

    /// The state once the signatures of all of `who` are demanded, in order.
    pub open spec fn demand_all(self, who: Seq<Address>) -> State {
        State {
            effects: self.effects + who.map_values(|a: Address| Effect::RequireAuth { who: a }),
            ..self
        }
    }
}

/// Whose signatures `call` demands, in order.
pub open spec fn signers(call: Call) -> Seq<Address> {
    match call {
        Call::Admin(c) => match c {
            AdminCall::Initialize { admin } => seq![admin],
            AdminCall::TransferAdmin { current, .. } => seq![current],
            AdminCall::AcceptAdminTransfer { new } => seq![new],
            AdminCall::SetDisputeVotingWindow { admin, .. } => seq![admin],
            AdminCall::SetFeeConfig { admin, .. } => seq![admin],
            AdminCall::SetFeeExempt { admin, .. } => seq![admin],
            AdminCall::SetStakeWeightedVoting { admin, .. } => seq![admin],
            AdminCall::SetJurorParams { admin, .. } => seq![admin],
            AdminCall::SetPaused { admin, .. } => seq![admin],
        },
        Call::Terms(c) => match c {
            TermsCall::CreateEscrow { renter, .. } => seq![renter],
            TermsCall::AcceptEscrow { host, .. } => seq![host],
            TermsCall::RejectEscrow { host, .. } => seq![host],
            TermsCall::AddMilestone { renter, .. } => seq![renter],
            TermsCall::RemoveMilestone { renter, .. } => seq![renter],
            TermsCall::UpdateMilestone { renter, .. } => seq![renter],
            TermsCall::CancelEscrow { caller, .. } => seq![caller],
            TermsCall::ExpireUnfundedEscrow { .. } => seq![],
        },
        Call::Funds(c) => match c {
            FundsCall::Deposit { renter, .. } => seq![renter],
            FundsCall::MutualCancel { renter, host, .. } => seq![renter, host],
            FundsCall::ConfirmMilestone { renter, .. } => seq![renter],
            FundsCall::ConfirmAllMilestones { renter, .. } => seq![renter],
            FundsCall::CheckAutoRelease { .. } => seq![],
            FundsCall::ExtendMilestoneDeadline { renter, .. } => seq![renter],
        },
        Call::Dispute(c) => match c {
            DisputeCall::RaiseDispute { caller, .. } => seq![caller],
            DisputeCall::AddDisputeEvidence { caller, .. } => seq![caller],
            DisputeCall::ExtendDisputeDeadline { renter, host, .. } => seq![renter, host],
            DisputeCall::VoteDispute { juror, .. } => seq![juror],
            DisputeCall::ResolveDispute { .. } => seq![],
            DisputeCall::ForceResolveStaleDispute { .. } => seq![],
        },
        Call::Juror(c) => match c {
            JurorCall::RegisterJuror { juror, .. } => seq![juror],
            JurorCall::WithdrawJurorStake { juror } => seq![juror],
        },
    }
}

/// Demanding signatures one by one.
pub proof fn lemma_demands(s: State)
    ensures
        s.demand_all(seq![]) == s,
        forall|a: Address| s.demand_all(seq![a]) == #[trigger] s.demand(a),
        forall|a: Address, b: Address|
            s.demand_all(seq![a, b]) == #[trigger] s.demand(a).demand(b),
{
    assert(s.demand_all(seq![]).effects =~= s.effects);
    assert forall|a: Address| s.demand_all(seq![a]) == #[trigger] s.demand(a) by {
        assert(s.demand_all(seq![a]).effects =~= s.demand(a).effects);
    }
    assert forall|a: Address, b: Address|
        s.demand_all(seq![a, b]) == #[trigger] s.demand(a).demand(b) by {
        assert(s.demand_all(seq![a, b]).effects =~= s.demand(a).demand(b).effects);
    }
}

#[verifier::spinoff_prover]
proof fn lemma_failed_admin_step(s: State, c: AdminCall)
    requires
        s.admin_step(c).1 is Some,
    ensures
        s.admin_step(c).0 == s.demand_all(signers(Call::Admin(c))),
{
    reveal(State::admin_step);
    lemma_demands(s);
}

#[verifier::spinoff_prover]
proof fn lemma_failed_terms_step(s: State, c: TermsCall)
    requires
        s.terms_step(c).1 is Some,
    ensures
        s.terms_step(c).0 == s.demand_all(signers(Call::Terms(c))),
{
    reveal(State::terms_step);
    lemma_demands(s);
}

#[verifier::spinoff_prover]
proof fn lemma_failed_funds_step(s: State, c: FundsCall)
    requires
        s.funds_step(c).1 is Some,
    ensures
        s.funds_step(c).0 == s.demand_all(signers(Call::Funds(c))),
{
    reveal(State::funds_step);
    lemma_demands(s);
}

#[verifier::spinoff_prover]
proof fn lemma_failed_dispute_step(s: State, c: DisputeCall)
    requires
        s.dispute_step(c).1 is Some,
    ensures
        s.dispute_step(c).0 == s.demand_all(signers(Call::Dispute(c))),
{
    reveal(State::dispute_step);
    lemma_demands(s);
}

#[verifier::spinoff_prover]
proof fn lemma_failed_juror_step(s: State, c: JurorCall)
    requires
        s.juror_step(c).1 is Some,
    ensures
        s.juror_step(c).0 == s.demand_all(signers(Call::Juror(c))),
{
    reveal(State::juror_step);
    lemma_demands(s);
}

/// A call that fails changes nothing; it leaves behind only the demand for the
/// signatures that it takes.
pub proof fn law_failure_changes_nothing(s: State, call: Call)
    requires
        s.step(call).1 is Some,
    ensures
        s.step(call).0 == s.demand_all(signers(call)),
{
    match call {
        Call::Admin(c) => lemma_failed_admin_step(s, c),
        Call::Terms(c) => lemma_failed_terms_step(s, c),
        Call::Funds(c) => lemma_failed_funds_step(s, c),
        Call::Dispute(c) => lemma_failed_dispute_step(s, c),
        Call::Juror(c) => lemma_failed_juror_step(s, c),
    }
}

/// Announcing releases only adds to the effects.
pub proof fn lemma_announcements_add(s: State, e: EscrowModel, n: nat)
    ensures
        s.effects.len() <= s.announce_releases(e, n).effects.len(),
        forall|k: int|
            0 <= k < s.effects.len() ==> s.announce_releases(e, n).effects[k] == s.effects[k],
    decreases n,
{
    if n > 0 {
        lemma_announcements_add(s, e, (n - 1) as nat);
    }
}

#[verifier::spinoff_prover]
proof fn lemma_signed_admin_step(s: State, c: AdminCall)
    ensures
        s.demand_all(signers(Call::Admin(c))).effects.is_prefix_of(s.admin_step(c).0.effects),
{
    reveal(State::admin_step);
    lemma_demands(s);
    let d = s.demand_all(signers(Call::Admin(c))).effects;
    let t = s.admin_step(c).0;
    assert(d.len() <= t.effects.len());
    assert(forall|k: int| 0 <= k < d.len() ==> d[k] == t.effects[k]);
    assert(d =~= t.effects.subrange(0, d.len() as int));
}

#[verifier::spinoff_prover]
proof fn lemma_signed_terms_step(s: State, c: TermsCall)
    ensures
        s.demand_all(signers(Call::Terms(c))).effects.is_prefix_of(s.terms_step(c).0.effects),
{
    reveal(State::terms_step);
    lemma_demands(s);
    let d = s.demand_all(signers(Call::Terms(c))).effects;
    let t = s.terms_step(c).0;
    assert(d.len() <= t.effects.len());
    assert(forall|k: int| 0 <= k < d.len() ==> d[k] == t.effects[k]);
    assert(d =~= t.effects.subrange(0, d.len() as int));
}

#[verifier::spinoff_prover]
proof fn lemma_signed_funds_step(s: State, c: FundsCall)
    ensures
        s.demand_all(signers(Call::Funds(c))).effects.is_prefix_of(s.funds_step(c).0.effects),
{
    reveal(State::funds_step);
    lemma_demands(s);
    let d = s.demand_all(signers(Call::Funds(c))).effects;
    let t = s.funds_step(c).0;
    if let FundsCall::ConfirmAllMilestones { renter, id, now } = c {
        let e = s.demand(renter).escrows[id];
        lemma_announcements_add(s.demand(renter), e, e.milestones.len());
    }
    assert(d.len() <= t.effects.len());
    assert(forall|k: int| 0 <= k < d.len() ==> d[k] == t.effects[k]);
    assert(d =~= t.effects.subrange(0, d.len() as int));
}

#[verifier::spinoff_prover]
proof fn lemma_signed_dispute_step(s: State, c: DisputeCall)
    ensures
        s.demand_all(signers(Call::Dispute(c))).effects.is_prefix_of(s.dispute_step(c).0.effects),
{
    reveal(State::dispute_step);
    lemma_demands(s);
    let d = s.demand_all(signers(Call::Dispute(c))).effects;
    let t = s.dispute_step(c).0;
    assert(d.len() <= t.effects.len());
    assert(forall|k: int| 0 <= k < d.len() ==> d[k] == t.effects[k]);
    assert(d =~= t.effects.subrange(0, d.len() as int));
}

#[verifier::spinoff_prover]
proof fn lemma_signed_juror_step(s: State, c: JurorCall)
    ensures
        s.demand_all(signers(Call::Juror(c))).effects.is_prefix_of(s.juror_step(c).0.effects),
{
    reveal(State::juror_step);
    lemma_demands(s);
    let d = s.demand_all(signers(Call::Juror(c))).effects;
    let t = s.juror_step(c).0;
    assert(d.len() <= t.effects.len());
    assert(forall|k: int| 0 <= k < d.len() ==> d[k] == t.effects[k]);
    assert(d =~= t.effects.subrange(0, d.len() as int));
}

/// The signatures that a call takes are demanded before anything else is asked
/// for, and what was asked for earlier stays as it is.
pub proof fn law_signatures_first(s: State, call: Call)
    ensures
        s.demand_all(signers(call)).effects.is_prefix_of(s.step(call).0.effects),
{
    match call {
        Call::Admin(c) => lemma_signed_admin_step(s, c),
        Call::Terms(c) => lemma_signed_terms_step(s, c),
        Call::Funds(c) => lemma_signed_funds_step(s, c),
        Call::Dispute(c) => lemma_signed_dispute_step(s, c),
        Call::Juror(c) => lemma_signed_juror_step(s, c),
    }
}

} // verus!
