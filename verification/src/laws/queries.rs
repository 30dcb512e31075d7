//! What each query answers: what the contract holds, and nothing else.

use crate::errors::{Error, Failure};
use crate::laws::values::refuses;
use crate::state::EscrowContract;
use crate::types::{
    Address, Dispute, Escrow, EscrowStatus, FeeConfig, JurorParams, JurorStakeInfo, Milestone,
};
use vstd::prelude::*;

verus! {

/// The queries on the rules answer what is set, or that nothing is.
pub proof fn law_rules_answered(c: &EscrowContract, party: Address)
    ensures
        forall|r: Result<Address, Failure>| #[trigger]
            call_ensures(EscrowContract::get_admin, (c,), r) ==> match c.admin {
                Some(admin) => r is Ok && r->Ok_0 == admin,
                None => refuses(r, Error::NotAuthorized),
            },
        forall|r: Option<Address>| #[trigger]
            call_ensures(EscrowContract::get_pending_admin, (c,), r) ==> r == c.pending_admin,
        forall|r: u64| #[trigger]
            call_ensures(EscrowContract::get_dispute_voting_window, (c,), r) ==> r
                == c.dispute_voting_window,
        forall|r: Option<FeeConfig>| #[trigger]
            call_ensures(EscrowContract::get_fee_config, (c,), r) ==> r == c.fee_config,
        forall|r: bool| #[trigger]
            call_ensures(EscrowContract::is_fee_exempt, (c, party), r) ==> (r <==> (
            c.fee_exempt@.contains_key(party) && c.fee_exempt@[party])),
        forall|r: bool| #[trigger]
            call_ensures(EscrowContract::get_stake_weighted_voting, (c,), r) ==> r
                == c.stake_weighted_voting,
        forall|r: JurorParams| #[trigger]
            call_ensures(EscrowContract::get_juror_params, (c,), r) ==> r == c.juror_params,
        forall|r: bool| #[trigger]
            call_ensures(EscrowContract::is_paused, (c,), r) ==> r == c.paused,
{
}

/// The queries on escrows and disputes hand out the record that is asked for,
/// or say that there is none.
pub proof fn law_records_answered(c: &EscrowContract, id: u32, i: u32, party: Address)
    ensures
        forall|r: u32| #[trigger]
            call_ensures(EscrowContract::get_escrow_count, (c,), r) ==> r == c.escrow_count,
        forall|r: Result<&Escrow, Failure>| #[trigger]
            call_ensures(EscrowContract::get_escrow, (c, id), r) ==> {
                &&& r is Ok <==> c.escrows@.contains_key(id)
                &&& r is Ok ==> (*(r->Ok_0))@ == c.escrows@[id]@
                &&& r is Err ==> r->Err_0 == Failure::Refused(Error::EscrowNotFound)
            },
        forall|r: Result<EscrowStatus, Failure>| #[trigger]
            call_ensures(EscrowContract::get_escrow_status, (c, id), r) ==> {
                &&& r is Ok <==> c.escrows@.contains_key(id)
                &&& r is Ok ==> r->Ok_0 == c.escrows@[id].status
                &&& r is Err ==> r->Err_0 == Failure::Refused(Error::EscrowNotFound)
            },
        forall|r: Result<&Milestone, Failure>| #[trigger]
            call_ensures(EscrowContract::get_milestone, (c, id, i), r) ==> {
                let found = c.escrows@.contains_key(id);
                let named = found && i < c.escrows@[id].milestones@.len();
                &&& r is Ok <==> named
                &&& r is Ok ==> (*(r->Ok_0))@ == c.escrows@[id].milestones@[i as int]@
                &&& !found ==> r->Err_0 == Failure::Refused(Error::EscrowNotFound)
                &&& found && !named ==> r->Err_0 == Failure::Refused(Error::InvalidMilestone)
            },
        forall|r: Option<&Dispute>| #[trigger]
            call_ensures(EscrowContract::get_dispute, (c, id, i), r) ==> {
                &&& r is Some <==> c.disputes@.contains_key((id, i))
                &&& r is Some ==> (*(r->0))@ == c.disputes@[(id, i)]@
            },
        forall|r: Vec<u32>| #[trigger]
            call_ensures(EscrowContract::get_escrows_for_party, (c, party), r) ==> {
                &&& c.party_escrows@.contains_key(party) ==> r@ == c.party_escrows@[party]@
                &&& !c.party_escrows@.contains_key(party) ==> r@.len() == 0
            },
{
}

/// The queries on a juror or party answer what is recorded: no reputation and
/// no open dispute until there is one.
pub proof fn law_standing_answered(c: &EscrowContract, who: Address)
    ensures
        forall|r: i32| #[trigger]
            call_ensures(EscrowContract::get_reputation, (c, who), r) ==> r == (
            if c.reputation@.contains_key(who) {
                c.reputation@[who]
            } else {
                0
            }),
        forall|r: u32| #[trigger]
            call_ensures(EscrowContract::get_active_dispute_count, (c, who), r) ==> r == (
            if c.active_disputes@.contains_key(who) {
                c.active_disputes@[who]
            } else {
                0
            }),
        forall|r: Option<JurorStakeInfo>| #[trigger]
            call_ensures(EscrowContract::get_juror_stake, (c, who), r) ==> r == (
            if c.juror_stakes@.contains_key(who) {
                Some(c.juror_stakes@[who])
            } else {
                None
            }),
{
}

} // verus!
