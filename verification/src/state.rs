//! The contract's state: its model, its invariant and the executable store.

use crate::errors::{Error, Failure};
use crate::params::{
    default_juror_params, juror_params_ok, DEFAULT_DISPUTE_VOTING_WINDOW,
    MAX_ADDITIONAL_EVIDENCE, MAX_ARBITRATION_FEE_BPS, MAX_FEE_BPS, MAX_MILESTONES, MAX_SLASH_BPS,
    MAX_STRING_LENGTH,
};
use crate::types::{
    Address, Dispute, DisputeModel, Effect, Escrow, EscrowModel, Event, FeeConfig, JurorParams,
    JurorStakeInfo, MilestoneModel,
};
use std::collections::BTreeMap;
use vstd::prelude::*;

verus! {

/// The contract as mathematics.
#[verifier::ext_equal]
pub struct State {
    pub admin: Option<Address>,
    pub pending_admin: Option<Address>,
    /// How many escrows were ever created, and the ID of the next one.
    pub escrow_count: u32,
    pub fee_config: Option<FeeConfig>,
    pub juror_params: JurorParams,
    pub paused: bool,
    pub dispute_voting_window: u64,
    pub stake_weighted_voting: bool,
    pub fee_exempt: Map<Address, bool>,
    pub escrows: Map<u32, EscrowModel>,
    /// Keyed by escrow ID and milestone index.
    pub disputes: Map<(u32, u32), DisputeModel>,
    /// The registered jurors, in order of registration.
    pub juror_pool: Seq<Address>,
    pub juror_stakes: Map<Address, JurorStakeInfo>,
    pub reputation: Map<Address, i32>,
    /// How many open disputes each juror is assigned to.
    pub active_disputes: Map<Address, u32>,
    /// The escrows in which each address is renter or host.
    pub party_escrows: Map<Address, Seq<u32>>,
    /// What the calls so far have asked of their surroundings, oldest first.
    pub effects: Seq<Effect>,
}

/// The value under `k`, or `default` where there is none.
pub open spec fn lookup<K, V>(m: Map<K, V>, k: K, default: V) -> V {
    if m.contains_key(k) {
        m[k]
    } else {
        default
    }
}

/// The refusal with error `e`.
pub open spec fn refused(e: Error) -> Option<Failure> {
    Some(Failure::Refused(e))
}

/// Sum of all milestone amounts.
pub open spec fn amount_sum(ms: Seq<MilestoneModel>) -> int
    decreases ms.len(),
{
    if ms.len() == 0 {
        0
    } else {
        amount_sum(ms.drop_last()) + ms.last().amount
    }
}

/// Sum of the amounts of the milestones that are still pending.
pub open spec fn pending_sum(ms: Seq<MilestoneModel>) -> int
    decreases ms.len(),
{
    if ms.len() == 0 {
        0
    } else {
        pending_sum(ms.drop_last()) + if ms.last().released {
            0
        } else {
            ms.last().amount as int
        }
    }
}

impl EscrowModel {
    /// Whether no milestone is pending.
    pub open spec fn all_released(self) -> bool {
        forall|i: int| 0 <= i < self.milestones.len() ==> (#[trigger] self.milestones[i]).released
    }

    /// Whether a later milestone never auto-releases before an earlier one.
    pub open spec fn chronological(self) -> bool {
        forall|i: int, j: int|
            0 <= i <= j < self.milestones.len() ==> (#[trigger] self.milestones[i]).auto_release_offset
                <= (#[trigger] self.milestones[j]).auto_release_offset
    }

    /// The terms of an escrow: two different parties and a bounded list of
    /// positive milestones in order, whose amounts make up the total.
    pub open spec fn wf(self) -> bool {
        &&& self.renter != self.host
        &&& 1 <= self.milestones.len() <= MAX_MILESTONES
        &&& self.total_amount == amount_sum(self.milestones)
        &&& self.chronological()
        &&& forall|i: int|
            0 <= i < self.milestones.len() ==> {
                &&& (#[trigger] self.milestones[i]).amount > 0
                &&& self.milestones[i].description.len() <= MAX_STRING_LENGTH
            }
    }
}

impl DisputeModel {
    /// Whether `who` has cast a vote.
    pub open spec fn has_voted(self, who: Address) -> bool {
        self.votes_for_renter.contains(who) || self.votes_for_host.contains(who)
    }

    /// A jury without repetition, of which each member votes at most once, for
    /// one side; rates within their ceilings.
    pub open spec fn wf(self) -> bool {
        &&& self.jurors.len() >= 1
        &&& self.jurors.no_duplicates()
        &&& self.votes_for_renter.no_duplicates()
        &&& self.votes_for_host.no_duplicates()
        &&& forall|a: Address|
            #![trigger self.votes_for_renter.contains(a)]
            #![trigger self.votes_for_host.contains(a)]
            {
                &&& self.has_voted(a) ==> self.jurors.contains(a)
                &&& !(self.votes_for_renter.contains(a) && self.votes_for_host.contains(a))
            }
        &&& self.slash_bps <= MAX_SLASH_BPS
        &&& self.arbitration_fee_bps <= MAX_ARBITRATION_FEE_BPS
        &&& self.additional_evidence.len() <= MAX_ADDITIONAL_EVIDENCE
    }
}

impl State {
    /// A contract on which nothing was called yet.
    pub open spec fn empty() -> State {
        State {
            admin: None,
            pending_admin: None,
            escrow_count: 0,
            fee_config: None,
            juror_params: default_juror_params(),
            paused: false,
            dispute_voting_window: DEFAULT_DISPUTE_VOTING_WINDOW,
            stake_weighted_voting: false,
            fee_exempt: Map::empty(),
            escrows: Map::empty(),
            disputes: Map::empty(),
            juror_pool: Seq::empty(),
            juror_stakes: Map::empty(),
            reputation: Map::empty(),
            active_disputes: Map::empty(),
            party_escrows: Map::empty(),
            effects: Seq::empty(),
        }
    }

    /// Every record is sound by itself: escrows and disputes are stored under
    /// their own keys, stakes are positive, nobody is in the juror pool twice,
    /// rates are within their ceilings.
    pub open spec fn wf(self) -> bool {
        &&& forall|id: u32| #[trigger]
            self.escrows.contains_key(id) ==> self.escrows[id].wf() && self.escrows[id].id == id
        &&& forall|k: (u32, u32)| #[trigger]
            self.disputes.contains_key(k) ==> {
                &&& self.disputes[k].wf()
                &&& self.disputes[k].escrow_id == k.0
                &&& self.disputes[k].milestone_index == k.1
            }
        &&& forall|a: Address| #[trigger]
            self.juror_stakes.contains_key(a) ==> self.juror_stakes[a].amount > 0
        &&& self.juror_pool.no_duplicates()
        &&& juror_params_ok(self.juror_params)
        &&& self.fee_config matches Some(c) ==> c.bps <= MAX_FEE_BPS
    }

    /// The state once one more effect is asked for.
    pub open spec fn emit(self, e: Effect) -> State {
        State { effects: self.effects.push(e), ..self }
    }

    /// The state once the signature of `who` is demanded.
    pub open spec fn demand(self, who: Address) -> State {
        self.emit(Effect::RequireAuth { who })
    }

    /// The state once `event` is published.
    pub open spec fn publish(self, event: Event) -> State {
        self.emit(Effect::Publish { event })
    }

    /// The state with `e` stored under `id`.
    pub open spec fn with_escrow(self, id: u32, e: EscrowModel) -> State {
        State { escrows: self.escrows.insert(id, e), ..self }
    }

    /// The state with `d` stored under `k`.
    pub open spec fn with_dispute(self, k: (u32, u32), d: DisputeModel) -> State {
        State { disputes: self.disputes.insert(k, d), ..self }
    }

    /// The reputation of `who`, 0 until it changes.
    pub open spec fn reputation_of(self, who: Address) -> i32 {
        lookup(self.reputation, who, 0)
    }

    /// How many open disputes `juror` is assigned to.
    pub open spec fn active_count(self, juror: Address) -> u32 {
        lookup(self.active_disputes, juror, 0)
    }
}

/// The contract's state in executable form.
pub struct EscrowContract {
    pub admin: Option<Address>,
    pub pending_admin: Option<Address>,
    pub escrow_count: u32,
    pub fee_config: Option<FeeConfig>,
    pub juror_params: JurorParams,
    pub paused: bool,
    pub dispute_voting_window: u64,
    pub stake_weighted_voting: bool,
    pub fee_exempt: BTreeMap<Address, bool>,
    pub escrows: BTreeMap<u32, Escrow>,
    pub disputes: BTreeMap<(u32, u32), Dispute>,
    pub juror_pool: Vec<Address>,
    pub juror_stakes: BTreeMap<Address, JurorStakeInfo>,
    pub reputation: BTreeMap<Address, i32>,
    pub active_disputes: BTreeMap<Address, u32>,
    pub party_escrows: BTreeMap<Address, Vec<u32>>,
    pub effects: Vec<Effect>,
}

impl View for EscrowContract {
    type V = State;

    open spec fn view(&self) -> State {
        State {
            admin: self.admin,
            pending_admin: self.pending_admin,
            escrow_count: self.escrow_count,
            fee_config: self.fee_config,
            juror_params: self.juror_params,
            paused: self.paused,
            dispute_voting_window: self.dispute_voting_window,
            stake_weighted_voting: self.stake_weighted_voting,
            fee_exempt: self.fee_exempt@,
            escrows: self.escrows@.map_values(|e: Escrow| e@),
            disputes: self.disputes@.map_values(|d: Dispute| d@),
            juror_pool: self.juror_pool@,
            juror_stakes: self.juror_stakes@,
            reputation: self.reputation@,
            active_disputes: self.active_disputes@,
            party_escrows: self.party_escrows@.map_values(|ids: Vec<u32>| ids@),
            effects: self.effects@,
        }
    }
}

impl EscrowContract {
    /// A contract on which nothing was called yet.
    pub fn new() -> (c: EscrowContract)
        ensures
            c@ == State::empty(),
            c@.wf(),
    {
        let c = EscrowContract {
            admin: None,
            pending_admin: None,
            escrow_count: 0,
            fee_config: None,
            juror_params: JurorParams::default(),
            paused: false,
            dispute_voting_window: DEFAULT_DISPUTE_VOTING_WINDOW,
            stake_weighted_voting: false,
            fee_exempt: BTreeMap::new(),
            escrows: BTreeMap::new(),
            disputes: BTreeMap::new(),
            juror_pool: Vec::new(),
            juror_stakes: BTreeMap::new(),
            reputation: BTreeMap::new(),
            active_disputes: BTreeMap::new(),
            party_escrows: BTreeMap::new(),
            effects: Vec::new(),
        };
        assert(c@ =~= State::empty());
        c
    }

    pub(crate) fn emit(&mut self, e: Effect)
        ensures
            final(self)@ == old(self)@.emit(e),
    {
        self.effects.push(e);
    }

    pub(crate) fn demand(&mut self, who: Address)
        ensures
            final(self)@ == old(self)@.demand(who),
    {
        self.emit(Effect::RequireAuth { who });
    }

    pub(crate) fn publish(&mut self, event: Event)
        ensures
            final(self)@ == old(self)@.publish(event),
    {
        self.emit(Effect::Publish { event });
    }

    /// Takes the escrow `id` out of the store, to be put back changed.
    pub(crate) fn take_escrow(&mut self, id: u32) -> (e: Escrow)
        requires
            old(self)@.escrows.contains_key(id),
        ensures
            e@ == old(self)@.escrows[id],
            final(self)@ == (State { escrows: old(self)@.escrows.remove(id), ..old(self)@ }),
    {
        let e = self.escrows.remove(&id).unwrap();
        assert(self@.escrows =~= old(self)@.escrows.remove(id));
        e
    }

    pub(crate) fn put_escrow(&mut self, id: u32, e: Escrow)
        ensures
            final(self)@ == old(self)@.with_escrow(id, e@),
    {
        self.escrows.insert(id, e);
        assert(self@.escrows =~= old(self)@.escrows.insert(id, e@));
    }

    /// Takes the dispute `k` out of the store, to be put back changed.
    pub(crate) fn take_dispute(&mut self, k: (u32, u32)) -> (d: Dispute)
        requires
            old(self)@.disputes.contains_key(k),
        ensures
            d@ == old(self)@.disputes[k],
            final(self)@ == (State { disputes: old(self)@.disputes.remove(k), ..old(self)@ }),
    {
        let d = self.disputes.remove(&k).unwrap();
        assert(self@.disputes =~= old(self)@.disputes.remove(k));
        d
    }

    pub(crate) fn put_dispute(&mut self, k: (u32, u32), d: Dispute)
        ensures
            final(self)@ == old(self)@.with_dispute(k, d@),
    {
        self.disputes.insert(k, d);
        assert(self@.disputes =~= old(self)@.disputes.insert(k, d@));
    }

    /// The escrow `id`, where there is one.
    pub(crate) fn find_escrow(&self, id: u32) -> (r: Option<&Escrow>)
        ensures
            match r {
                Some(e) => self@.escrows.contains_key(id) && e@ == self@.escrows[id],
                None => !self@.escrows.contains_key(id),
            },
    {
        self.escrows.get(&id)
    }

    /// The dispute `k`, where there is one.
    pub(crate) fn find_dispute(&self, k: (u32, u32)) -> (r: Option<&Dispute>)
        ensures
            match r {
                Some(d) => self@.disputes.contains_key(k) && d@ == self@.disputes[k],
                None => !self@.disputes.contains_key(k),
            },
    {
        self.disputes.get(&k)
    }
}

/// Whether `who` occurs in `list`.
pub(crate) fn contains(list: &Vec<Address>, who: Address) -> (found: bool)
    ensures
        found == list@.contains(who),
{
    let mut i: usize = 0;
    while i < list.len()
        invariant
            i <= list.len(),
            forall|j: int| 0 <= j < i ==> list@[j] != who,
        decreases list.len() - i,
    {
        if list[i] == who {
            return true;
        }
        i += 1;
    }
    false
}

} // verus!
