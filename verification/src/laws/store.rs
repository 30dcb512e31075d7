//! The executable store follows the model: whatever a call leaves in the store
//! and answers is what the model's transition gives on the same arguments, so
//! that what holds of the transitions holds of the calls. Records that are put
//! back land where they belong, or not at all.

use crate::errors::{error_code, Error, Failure};
use crate::lifecycle::{terms_view, Term};
use crate::state::{EscrowContract, State};
use crate::types::{Address, Dispute, Escrow, FeeConfig, JurorParams, JurorStakeInfo};
use vstd::prelude::*;

verus! {

/// The admin's calls follow the model.
pub proof fn law_admin_calls_follow(
    c: &mut EscrowContract,
    admin: Address,
    other: Address,
    flag: bool,
    seconds: u64,
    bps: u32,
    p: JurorParams,
    r: Result<(), Failure>,
)
    ensures
        call_ensures(EscrowContract::initialize, (c, admin), r) ==> (final(c)@, r) == old(
            c,
        )@.initialize(admin),
        call_ensures(EscrowContract::transfer_admin, (c, admin, other), r) ==> (final(c)@, r)
            == old(c)@.transfer_admin(admin, other),
        call_ensures(EscrowContract::accept_admin_transfer, (c, admin), r) ==> (final(c)@, r)
            == old(c)@.accept_admin_transfer(admin),
        call_ensures(EscrowContract::set_dispute_voting_window, (c, admin, seconds), r) ==> (
            final(c)@,
            r,
        ) == old(c)@.set_dispute_voting_window(admin, seconds),
        call_ensures(EscrowContract::set_fee_config, (c, admin, bps, other), r) ==> (final(c)@, r)
            == old(c)@.set_fee_config(admin, bps, other),
        call_ensures(EscrowContract::set_fee_exempt, (c, admin, other, flag), r) ==> (final(c)@, r)
            == old(c)@.set_fee_exempt(admin, other, flag),
        call_ensures(EscrowContract::set_stake_weighted_voting, (c, admin, flag), r) ==> (
            final(c)@,
            r,
        ) == old(c)@.set_stake_weighted_voting(admin, flag),
        call_ensures(
            EscrowContract::set_juror_params,
            (
                c,
                admin,
                p.min_stake,
                p.jury_size,
                p.slash_bps,
                p.min_reputation,
                p.arbitration_fee_bps,
            ),
            r,
        ) ==> (final(c)@, r) == old(c)@.set_juror_params(admin, p),
        call_ensures(EscrowContract::set_paused, (c, admin, flag), r) ==> (final(c)@, r) == old(
            c,
        )@.set_paused(admin, flag),
{
}

/// The calls on an unfunded escrow follow the model.
pub proof fn law_terms_calls_follow(
    c: &mut EscrowContract,
    a: Address,
    id: u32,
    i: u32,
    description: Vec<u8>,
    amount: i128,
    offset: u64,
    now: u64,
    r: Result<(), Failure>,
)
    ensures
        call_ensures(EscrowContract::accept_escrow, (c, a, id), r) ==> (final(c)@, r) == old(
            c,
        )@.accept_escrow(a, id),
        call_ensures(EscrowContract::reject_escrow, (c, a, id), r) ==> (final(c)@, r) == old(
            c,
        )@.reject_escrow(a, id),
        call_ensures(EscrowContract::add_milestone, (c, a, id, description, amount, offset), r)
            ==> (final(c)@, r) == old(c)@.add_milestone(a, id, description@, amount, offset),
        call_ensures(EscrowContract::remove_milestone, (c, a, id, i), r) ==> (final(c)@, r) == old(
            c,
        )@.remove_milestone(a, id, i),
        call_ensures(EscrowContract::update_milestone, (c, a, id, i, description, amount, offset), r)
            ==> (final(c)@, r) == old(c)@.update_milestone(a, id, i, description@, amount, offset),
        call_ensures(EscrowContract::cancel_escrow, (c, a, id), r) ==> (final(c)@, r) == old(
            c,
        )@.cancel_escrow(a, id),
        call_ensures(EscrowContract::expire_unfunded_escrow, (c, id, now), r) ==> (final(c)@, r)
            == old(c)@.expire_unfunded_escrow(id, now),
{
}

/// Proposals and disputes, which answer with an ID, follow the model.
pub proof fn law_opening_calls_follow(
    c: &mut EscrowContract,
    a: Address,
    b: Address,
    asset: Address,
    terms: Vec<Term>,
    gated: bool,
    id: u32,
    i: u32,
    evidence: Vec<u8>,
    now: u64,
    r: Result<u32, Failure>,
)
    ensures
        call_ensures(EscrowContract::create_escrow, (c, a, b, asset, terms, gated, now), r) ==> (
            final(c)@,
            r,
        ) == old(c)@.create_escrow(a, b, asset, terms_view(terms@), gated, now),
        call_ensures(EscrowContract::raise_dispute, (c, a, id, i, evidence, now), r) ==> (
            final(c)@,
            r,
        ) == old(c)@.raise_dispute(a, id, i, evidence@, now),
{
}

/// The calls on a funded escrow follow the model.
pub proof fn law_funds_calls_follow(
    c: &mut EscrowContract,
    renter: Address,
    host: Address,
    id: u32,
    i: u32,
    extra: u64,
    now: u64,
    r: Result<(), Failure>,
)
    ensures
        call_ensures(EscrowContract::deposit, (c, renter, id, now), r) ==> (final(c)@, r) == old(
            c,
        )@.deposit(renter, id, now),
        call_ensures(EscrowContract::mutual_cancel, (c, renter, host, id), r) ==> (final(c)@, r)
            == old(c)@.mutual_cancel(renter, host, id),
        call_ensures(EscrowContract::confirm_milestone, (c, renter, id, i, now), r) ==> (
            final(c)@,
            r,
        ) == old(c)@.confirm_milestone(renter, id, i, now),
        call_ensures(EscrowContract::confirm_all_milestones, (c, renter, id, now), r) ==> (
            final(c)@,
            r,
        ) == old(c)@.confirm_all_milestones(renter, id, now),
        call_ensures(EscrowContract::check_auto_release, (c, id, i, now), r) ==> (final(c)@, r)
            == old(c)@.check_auto_release(id, i, now),
        call_ensures(EscrowContract::extend_milestone_deadline, (c, renter, id, i, extra), r) ==> (
            final(c)@,
            r,
        ) == old(c)@.extend_milestone_deadline(renter, id, i, extra),
{
}

/// The calls on open disputes and on juror stakes follow the model.
pub proof fn law_dispute_calls_follow(
    c: &mut EscrowContract,
    a: Address,
    b: Address,
    id: u32,
    i: u32,
    evidence: Vec<u8>,
    for_renter: bool,
    extra: u64,
    stake: i128,
    now: u64,
    r: Result<(), Failure>,
)
    ensures
        call_ensures(EscrowContract::vote_dispute, (c, a, id, i, for_renter), r) ==> (final(c)@, r)
            == old(c)@.vote_dispute(a, id, i, for_renter),
        call_ensures(EscrowContract::add_dispute_evidence, (c, a, id, i, evidence), r) ==> (
            final(c)@,
            r,
        ) == old(c)@.add_dispute_evidence(a, id, i, evidence@),
        call_ensures(EscrowContract::extend_dispute_deadline, (c, a, b, id, i, extra), r) ==> (
            final(c)@,
            r,
        ) == old(c)@.extend_dispute_deadline(a, b, id, i, extra),
        call_ensures(EscrowContract::resolve_dispute, (c, id, i, now), r) ==> (final(c)@, r) == old(
            c,
        )@.resolve_dispute(id, i, now),
        call_ensures(EscrowContract::force_resolve_stale_dispute, (c, id, i, now), r) ==> (
            final(c)@,
            r,
        ) == old(c)@.force_resolve_stale_dispute(id, i, now),
        call_ensures(EscrowContract::register_juror, (c, a, b, stake), r) ==> (final(c)@, r) == old(
            c,
        )@.register_juror(a, b, stake),
        call_ensures(EscrowContract::withdraw_juror_stake, (c, a), r) ==> (final(c)@, r) == old(
            c,
        )@.withdraw_juror_stake(a),
{
}

/// A record is put back under its own key where it is sound, and nothing
/// changes where it is not.
pub proof fn law_records_put_back(c: &mut EscrowContract, e: Escrow, d: Dispute, ok: bool)
    ensures
        call_ensures(EscrowContract::restore_escrow, (c, e), ok) ==> {
            &&& ok <==> e@.wf()
            &&& ok ==> final(c)@ == (State {
                escrows: old(c)@.escrows.insert(e.id, e@),
                ..old(c)@
            })
            &&& !ok ==> final(c)@ == old(c)@
        },
        call_ensures(EscrowContract::restore_dispute, (c, d), ok) ==> {
            &&& ok <==> d@.wf()
            &&& ok ==> final(c)@ == (State {
                disputes: old(c)@.disputes.insert((d.escrow_id, d.milestone_index), d@),
                ..old(c)@
            })
            &&& !ok ==> final(c)@ == old(c)@
        },
        call_ensures(Escrow::is_sound, (&e,), ok) ==> (ok <==> e@.wf()),
        call_ensures(Dispute::is_sound, (&d,), ok) ==> (ok <==> d@.wf()),
{
}

/// A stake is put back where it is positive, the pool where nobody is in it
/// twice, the rules where they are within their bounds; otherwise nothing
/// changes.
pub proof fn law_rules_put_back(
    c: &mut EscrowContract,
    juror: Address,
    info: JurorStakeInfo,
    pool: Vec<Address>,
    params: JurorParams,
    config: FeeConfig,
    ok: bool,
)
    ensures
        call_ensures(EscrowContract::restore_stake, (c, juror, info), ok) ==> {
            &&& ok <==> info.amount >= 1
            &&& ok ==> final(c)@ == (State {
                juror_stakes: old(c)@.juror_stakes.insert(juror, info),
                ..old(c)@
            })
            &&& !ok ==> final(c)@ == old(c)@
        },
        call_ensures(EscrowContract::restore_pool, (c, pool), ok) ==> {
            &&& ok <==> pool@.no_duplicates()
            &&& ok ==> final(c)@ == (State { juror_pool: pool@, ..old(c)@ })
            &&& !ok ==> final(c)@ == old(c)@
        },
        call_ensures(EscrowContract::restore_juror_params, (c, params), ok) ==> {
            &&& ok <==> params.min_stake >= 1 && params.jury_size % 2 == 1 && params.slash_bps
                <= 5_000 && params.arbitration_fee_bps <= 1_000
            &&& ok ==> final(c)@ == (State { juror_params: params, ..old(c)@ })
            &&& !ok ==> final(c)@ == old(c)@
        },
        call_ensures(EscrowContract::restore_fee_config, (c, config), ok) ==> {
            &&& ok <==> config.bps <= 2_000
            &&& ok ==> final(c)@ == (State { fee_config: Some(config), ..old(c)@ })
            &&& !ok ==> final(c)@ == old(c)@
        },
{
}

/// A new contract is empty, and an error tells its number.
pub proof fn law_fresh_store(c: EscrowContract, e: &Error, n: u32)
    ensures
        call_ensures(EscrowContract::new, (), c) ==> c@ == State::empty(),
        call_ensures(Error::code, (e,), n) ==> n == error_code(*e),
{
}

} // verus!
