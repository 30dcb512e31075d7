//! The life of an escrow: terms, acceptance, funding and early exits.

use crate::errors::{Error, Failure};
use crate::params::{MAX_MILESTONES, MAX_STRING_LENGTH, UNFUNDED_EXPIRY_WINDOW};
use crate::release::lemma_same_terms_wf;
use crate::state::{amount_sum, lookup, pending_sum, refused, EscrowContract, State};
use crate::types::{
    Address, Effect, Escrow, EscrowModel, EscrowStatus, Event, Milestone, MilestoneModel,
};
use vstd::prelude::*;

verus! {

/// One proposed milestone: description, amount, seconds from the deposit to its
/// auto-release.
pub type Term = (Vec<u8>, i128, u64);

/// The model of proposed milestones.
pub open spec fn terms_view(terms: Seq<Term>) -> Seq<(Seq<u8>, i128, u64)> {
    terms.map_values(|t: Term| (t.0@, t.1, t.2))
}

/// A milestone that is not funded yet.
pub open spec fn new_milestone(description: Seq<u8>, amount: i128, offset: u64) -> MilestoneModel {
    MilestoneModel {
        description,
        amount,
        auto_release_offset: offset,
        auto_release_at: 0,
        released: false,
        released_at: 0,
    }
}

/// The milestones that `terms` propose.
pub open spec fn milestones_of(terms: Seq<(Seq<u8>, i128, u64)>) -> Seq<MilestoneModel> {
    terms.map_values(|t: (Seq<u8>, i128, u64)| new_milestone(t.0, t.1, t.2))
}

/// Why term `k` is not acceptable after the terms before it.
pub open spec fn term_refusal(terms: Seq<(Seq<u8>, i128, u64)>, k: int) -> Option<Failure> {
    if terms[k].1 <= 0 {
        refused(Error::InvalidAmount)
    } else if terms[k].0.len() > MAX_STRING_LENGTH {
        refused(Error::StringTooLong)
    } else if k > 0 && terms[k].2 < terms[k - 1].2 {
        refused(Error::NonChronologicalMilestones)
    } else if amount_sum(milestones_of(terms.take(k + 1))) > i128::MAX {
        Some(Failure::Aborted)
    } else {
        None
    }
}

/// What is wrong with the first unacceptable one of the first `n` terms.
pub open spec fn terms_refusal(terms: Seq<(Seq<u8>, i128, u64)>, n: nat) -> Option<Failure>
    decreases n,
{
    if n == 0 {
        None
    } else {
        match terms_refusal(terms, (n - 1) as nat) {
            Some(f) => Some(f),
            None => term_refusal(terms, n - 1),
        }
    }
}

impl EscrowModel {
    /// The escrow once its terms changed: a host who has to accept them has to
    /// do so again.
    pub open spec fn with_terms(
        self,
        milestones: Seq<MilestoneModel>,
        total_amount: int,
    ) -> EscrowModel {
        EscrowModel {
            milestones,
            total_amount: total_amount as i128,
            host_accepted: self.host_accepted && !self.requires_host_acceptance,
            ..self
        }
    }

    /// The escrow once it is funded at time `now`.
    pub open spec fn fund(self, now: u64) -> EscrowModel {
        EscrowModel {
            milestones: self.milestones.map_values(
                |m: MilestoneModel|
                    MilestoneModel { auto_release_at: (now + m.auto_release_offset) as u64, ..m },
            ),
            funded_amount: self.total_amount,
            status: EscrowStatus::Active,
            ..self
        }
    }

    /// The escrow once it is called off.
    pub open spec fn cancel(self) -> EscrowModel {
        EscrowModel { status: EscrowStatus::Cancelled, ..self }
    }

    /// The escrow once it is called off and its pending milestones written off.
    pub open spec fn unwind(self) -> EscrowModel {
        EscrowModel {
            milestones: self.milestones.map_values(
                |m: MilestoneModel|
                    if m.released {
                        m
                    } else {
                        MilestoneModel { released: true, ..m }
                    },
            ),
            status: EscrowStatus::Cancelled,
            ..self
        }
    }
}

impl State {
    /// The state once escrow `id` is listed under `party`.
    pub open spec fn index_party(self, party: Address, id: u32) -> State {
        State {
            party_escrows: self.party_escrows.insert(
                party,
                lookup(self.party_escrows, party, Seq::empty()).push(id),
            ),
            ..self
        }
    }

    /// Why `terms` between `renter` and `host` cannot become an escrow.
    pub open spec fn create_refusal(
        self,
        renter: Address,
        host: Address,
        terms: Seq<(Seq<u8>, i128, u64)>,
    ) -> Option<Failure> {
        if self.paused {
            refused(Error::ContractPaused)
        } else if renter == host {
            refused(Error::SameParty)
        } else if terms.len() == 0 {
            refused(Error::NoMilestones)
        } else if terms.len() > MAX_MILESTONES {
            refused(Error::TooManyMilestones)
        } else if terms_refusal(terms, terms.len()) is Some {
            terms_refusal(terms, terms.len())
        } else if self.escrow_count == u32::MAX {
            Some(Failure::Aborted)
        } else {
            None
        }
    }

    /// The escrow that `renter` proposes to `host`.
    pub open spec fn new_escrow(
        self,
        renter: Address,
        host: Address,
        asset: Address,
        terms: Seq<(Seq<u8>, i128, u64)>,
        requires_host_acceptance: bool,
        now: u64,
    ) -> EscrowModel {
        EscrowModel {
            id: self.escrow_count,
            renter,
            host,
            asset,
            total_amount: amount_sum(milestones_of(terms)) as i128,
            funded_amount: 0,
            milestones: milestones_of(terms),
            status: EscrowStatus::Created,
            dispute_id: None,
            host_accepted: !requires_host_acceptance,
            requires_host_acceptance,
            created_at: now,
            ever_disputed: false,
        }
    }

    /// Renter proposes terms. No funds move yet.
    pub open spec fn create_escrow(
        self,
        renter: Address,
        host: Address,
        asset: Address,
        terms: Seq<(Seq<u8>, i128, u64)>,
        requires_host_acceptance: bool,
        now: u64,
    ) -> (State, Result<u32, Failure>) {
        let s = self.demand(renter);
        match s.create_refusal(renter, host, terms) {
            Some(f) => (s, Err(f)),
            None => {
                let id = s.escrow_count;
                let e = s.new_escrow(renter, host, asset, terms, requires_host_acceptance, now);
                let t = State { escrow_count: (id + 1) as u32, ..s };
                (
                    t.with_escrow(id, e).index_party(renter, id).index_party(host, id).publish(
                        Event::Created { id, renter, host, total_amount: e.total_amount },
                    ),
                    Ok(id),
                )
            },
        }
    }

    /// Why `host` cannot answer the proposal `id`.
    pub open spec fn answer_refusal(self, host: Address, id: u32) -> Option<Failure> {
        if !self.escrows.contains_key(id) {
            refused(Error::EscrowNotFound)
        } else if self.escrows[id].host != host {
            refused(Error::NotAuthorized)
        } else if self.escrows[id].status != EscrowStatus::Created {
            refused(Error::InvalidState)
        } else {
            None
        }
    }

    /// Host agrees to the present terms.
    pub open spec fn accept_escrow(self, host: Address, id: u32) -> (State, Result<(), Failure>) {
        let s = self.demand(host);
        match s.answer_refusal(host, id) {
            Some(f) => (s, Err(f)),
            None => (
                s.with_escrow(id, EscrowModel { host_accepted: true, ..s.escrows[id] }),
                Ok(()),
            ),
        }
    }

    /// Host declines the proposal, which cancels the escrow.
    pub open spec fn reject_escrow(self, host: Address, id: u32) -> (State, Result<(), Failure>) {
        let s = self.demand(host);
        match s.answer_refusal(host, id) {
            Some(f) => (s, Err(f)),
            None => (s.with_escrow(id, s.escrows[id].cancel()), Ok(())),
        }
    }

    /// Why `renter` cannot edit the terms of escrow `id`.
    pub open spec fn edit_refusal(self, renter: Address, id: u32) -> Option<Failure> {
        if !self.escrows.contains_key(id) {
            refused(Error::EscrowNotFound)
        } else if self.escrows[id].renter != renter {
            refused(Error::NotAuthorized)
        } else if self.escrows[id].status != EscrowStatus::Created {
            refused(Error::InvalidState)
        } else {
            None
        }
    }

    /// Why no milestone of these terms can be appended to escrow `id`.
    pub open spec fn add_refusal(
        self,
        renter: Address,
        id: u32,
        description: Seq<u8>,
        amount: i128,
        offset: u64,
    ) -> Option<Failure> {
        let e = self.escrows[id];
        if self.edit_refusal(renter, id) is Some {
            self.edit_refusal(renter, id)
        } else if amount <= 0 {
            refused(Error::InvalidAmount)
        } else if description.len() > MAX_STRING_LENGTH {
            refused(Error::StringTooLong)
        } else if e.milestones.len() >= MAX_MILESTONES {
            refused(Error::TooManyMilestones)
        } else if offset < e.milestones.last().auto_release_offset {
            refused(Error::NonChronologicalMilestones)
        } else if e.total_amount + amount > i128::MAX {
            Some(Failure::Aborted)
        } else {
            None
        }
    }

    /// Renter appends a milestone to an unfunded escrow.
    pub open spec fn add_milestone(
        self,
        renter: Address,
        id: u32,
        description: Seq<u8>,
        amount: i128,
        offset: u64,
    ) -> (State, Result<(), Failure>) {
        let s = self.demand(renter);
        match s.add_refusal(renter, id, description, amount, offset) {
            Some(f) => (s, Err(f)),
            None => {
                let e = s.escrows[id];
                (
                    s.with_escrow(
                        id,
                        e.with_terms(
                            e.milestones.push(new_milestone(description, amount, offset)),
                            e.total_amount + amount,
                        ),
                    ),
                    Ok(()),
                )
            },
        }
    }

    /// Why milestone `i` cannot be removed from escrow `id`.
    pub open spec fn remove_refusal(self, renter: Address, id: u32, i: u32) -> Option<Failure> {
        if self.edit_refusal(renter, id) is Some {
            self.edit_refusal(renter, id)
        } else if self.escrows[id].milestones.len() <= 1 {
            refused(Error::NoMilestones)
        } else if i >= self.escrows[id].milestones.len() {
            refused(Error::InvalidMilestone)
        } else {
            None
        }
    }

    /// Renter removes a milestone from an unfunded escrow; one always remains.
    pub open spec fn remove_milestone(self, renter: Address, id: u32, i: u32) -> (
        State,
        Result<(), Failure>,
    ) {
        let s = self.demand(renter);
        match s.remove_refusal(renter, id, i) {
            Some(f) => (s, Err(f)),
            None => {
                let e = s.escrows[id];
                (
                    s.with_escrow(
                        id,
                        e.with_terms(
                            e.milestones.remove(i as int),
                            e.total_amount - e.milestones[i as int].amount,
                        ),
                    ),
                    Ok(()),
                )
            },
        }
    }

    /// Why milestone `i` of escrow `id` cannot be given these terms.
    pub open spec fn update_refusal(
        self,
        renter: Address,
        id: u32,
        i: u32,
        description: Seq<u8>,
        amount: i128,
        offset: u64,
    ) -> Option<Failure> {
        let e = self.escrows[id];
        if self.edit_refusal(renter, id) is Some {
            self.edit_refusal(renter, id)
        } else if amount <= 0 {
            refused(Error::InvalidAmount)
        } else if description.len() > MAX_STRING_LENGTH {
            refused(Error::StringTooLong)
        } else if i >= e.milestones.len() {
            refused(Error::InvalidMilestone)
        } else if i > 0 && offset < e.milestones[i - 1].auto_release_offset {
            refused(Error::NonChronologicalMilestones)
        } else if i + 1 < e.milestones.len() && offset > e.milestones[i + 1].auto_release_offset {
            refused(Error::NonChronologicalMilestones)
        } else if e.total_amount - e.milestones[i as int].amount + amount > i128::MAX {
            Some(Failure::Aborted)
        } else {
            None
        }
    }

    /// Renter replaces the terms of a milestone of an unfunded escrow.
    pub open spec fn update_milestone(
        self,
        renter: Address,
        id: u32,
        i: u32,
        description: Seq<u8>,
        amount: i128,
        offset: u64,
    ) -> (State, Result<(), Failure>) {
        let s = self.demand(renter);
        match s.update_refusal(renter, id, i, description, amount, offset) {
            Some(f) => (s, Err(f)),
            None => {
                let e = s.escrows[id];
                (
                    s.with_escrow(
                        id,
                        e.with_terms(
                            e.milestones.update(
                                i as int,
                                new_milestone(description, amount, offset),
                            ),
                            e.total_amount - e.milestones[i as int].amount + amount,
                        ),
                    ),
                    Ok(()),
                )
            },
        }
    }

    /// Why `renter` cannot fund escrow `id` at time `now`.
    pub open spec fn deposit_refusal(self, renter: Address, id: u32, now: u64) -> Option<Failure> {
        if self.paused {
            refused(Error::ContractPaused)
        } else if !self.escrows.contains_key(id) {
            refused(Error::EscrowNotFound)
        } else {
            let e = self.escrows[id];
            if e.renter != renter {
                refused(Error::NotAuthorized)
            } else if e.status != EscrowStatus::Created {
                refused(Error::InvalidState)
            } else if !e.host_accepted {
                refused(Error::HostAcceptancePending)
            } else if now + e.milestones.last().auto_release_offset > u64::MAX {
                Some(Failure::Aborted)
            } else {
                None
            }
        }
    }

    /// Renter locks the full amount, which starts every milestone's clock.
    pub open spec fn deposit(self, renter: Address, id: u32, now: u64) -> (
        State,
        Result<(), Failure>,
    ) {
        let s = self.demand(renter);
        match s.deposit_refusal(renter, id, now) {
            Some(f) => (s, Err(f)),
            None => {
                let e = s.escrows[id];
                (
                    s.emit(
                        Effect::Collect { asset: e.asset, from: renter, amount: e.total_amount },
                    ).with_escrow(id, e.fund(now)).publish(
                        Event::Funded { id, total_amount: e.total_amount },
                    ),
                    Ok(()),
                )
            },
        }
    }

    /// Either party calls off an escrow that is not funded yet.
    pub open spec fn cancel_escrow(self, caller: Address, id: u32) -> (State, Result<(), Failure>) {
        let s = self.demand(caller);
        if !s.escrows.contains_key(id) {
            (s, Err(Failure::Refused(Error::EscrowNotFound)))
        } else if !s.escrows[id].is_party(caller) {
            (s, Err(Failure::Refused(Error::NotAuthorized)))
        } else if s.escrows[id].status != EscrowStatus::Created {
            (s, Err(Failure::Refused(Error::InvalidState)))
        } else {
            (
                s.with_escrow(id, s.escrows[id].cancel()).publish(Event::Cancelled { id }),
                Ok(()),
            )
        }
    }

    /// Anyone clears away an escrow that nobody funded in time.
    pub open spec fn expire_unfunded_escrow(self, id: u32, now: u64) -> (
        State,
        Result<(), Failure>,
    ) {
        if !self.escrows.contains_key(id) {
            (self, Err(Failure::Refused(Error::EscrowNotFound)))
        } else if self.escrows[id].status != EscrowStatus::Created {
            (self, Err(Failure::Refused(Error::InvalidState)))
        } else if self.escrows[id].created_at + UNFUNDED_EXPIRY_WINDOW > u64::MAX {
            (self, Err(Failure::Aborted))
        } else if now < self.escrows[id].created_at + UNFUNDED_EXPIRY_WINDOW {
            (self, Err(Failure::Refused(Error::NotYetExpired)))
        } else {
            (
                self.with_escrow(id, self.escrows[id].cancel()).publish(Event::Expired { id }),
                Ok(()),
            )
        }
    }

    /// Why `renter` and `host` cannot unwind escrow `id`.
    pub open spec fn unwind_refusal(self, renter: Address, host: Address, id: u32) -> Option<
        Failure,
    > {
        if !self.escrows.contains_key(id) {
            refused(Error::EscrowNotFound)
        } else if self.escrows[id].renter != renter || self.escrows[id].host != host {
            refused(Error::NotAuthorized)
        } else if self.escrows[id].status != EscrowStatus::Active {
            refused(Error::InvalidState)
        } else {
            None
        }
    }

    /// Both parties unwind a funded escrow; the renter gets back what is
    /// pending, free of fees.
    pub open spec fn mutual_cancel(self, renter: Address, host: Address, id: u32) -> (
        State,
        Result<(), Failure>,
    ) {
        let s = self.demand(renter).demand(host);
        match s.unwind_refusal(renter, host, id) {
            Some(f) => (s, Err(f)),
            None => {
                let e = s.escrows[id];
                let refund = pending_sum(e.milestones);
                let t = if refund > 0 {
                    s.emit(Effect::Pay { asset: e.asset, to: renter, amount: refund as i128 })
                } else {
                    s
                };
                (
                    t.with_escrow(id, e.unwind()).publish(
                        Event::Mutual { id, refund: refund as i128 },
                    ),
                    Ok(()),
                )
            },
        }
    }
}

/// A refusal stays the first one however many terms follow.
proof fn lemma_terms_refusal_stays(terms: Seq<(Seq<u8>, i128, u64)>, k: nat, n: nat)
    requires
        k <= n,
        terms_refusal(terms, k) is Some,
    ensures
        terms_refusal(terms, n) == terms_refusal(terms, k),
    decreases n,
{
    if k < n {
        lemma_terms_refusal_stays(terms, k, (n - 1) as nat);
    }
}

/// What holds of terms that are not refused.
pub proof fn lemma_terms_accepted(terms: Seq<(Seq<u8>, i128, u64)>, n: nat)
    requires
        n <= terms.len(),
        terms_refusal(terms, n) is None,
    ensures
        forall|k: int|
            0 <= k < n ==> (#[trigger] terms[k]).1 > 0 && terms[k].0.len() <= MAX_STRING_LENGTH,
        forall|i: int, j: int| 0 <= i <= j < n ==> (#[trigger] terms[i]).2 <= (#[trigger] terms[j]).2,
        0 <= amount_sum(milestones_of(terms.take(n as int))) <= i128::MAX,
    decreases n,
{
    if n > 0 {
        lemma_terms_accepted(terms, (n - 1) as nat);
        assert(term_refusal(terms, n - 1) is None);
        lemma_milestones_step(terms, n - 1);
    }
}

/// The milestones of one more term.
proof fn lemma_milestones_step(terms: Seq<(Seq<u8>, i128, u64)>, k: int)
    requires
        0 <= k < terms.len(),
    ensures
        milestones_of(terms.take(k + 1)) == milestones_of(terms.take(k)).push(
            new_milestone(terms[k].0, terms[k].1, terms[k].2),
        ),
        amount_sum(milestones_of(terms.take(k + 1))) == amount_sum(milestones_of(terms.take(k)))
            + terms[k].1,
{
    let m = new_milestone(terms[k].0, terms[k].1, terms[k].2);
    assert(milestones_of(terms.take(k + 1)) =~= milestones_of(terms.take(k)).push(m));
    lemma_amount_sum_push(milestones_of(terms.take(k)), m);
}

/// The sum with one more milestone.
pub proof fn lemma_amount_sum_push(ms: Seq<MilestoneModel>, m: MilestoneModel)
    ensures
        amount_sum(ms.push(m)) == amount_sum(ms) + m.amount,
{
    assert(ms.push(m).drop_last() =~= ms);
}

/// The sum with one milestone less.
pub proof fn lemma_amount_sum_remove(ms: Seq<MilestoneModel>, i: int)
    requires
        0 <= i < ms.len(),
    ensures
        amount_sum(ms.remove(i)) == amount_sum(ms) - ms[i].amount,
    decreases ms.len(),
{
    if i == ms.len() - 1 {
        assert(ms.remove(i) =~= ms.drop_last());
    } else {
        lemma_amount_sum_remove(ms.drop_last(), i);
        assert(ms.remove(i).drop_last() =~= ms.drop_last().remove(i));
        assert(ms.remove(i).last() == ms.last());
    }
}

/// The sum with one milestone replaced.
pub proof fn lemma_amount_sum_update(ms: Seq<MilestoneModel>, i: int, m: MilestoneModel)
    requires
        0 <= i < ms.len(),
    ensures
        amount_sum(ms.update(i, m)) == amount_sum(ms) - ms[i].amount + m.amount,
    decreases ms.len(),
{
    if i == ms.len() - 1 {
        assert(ms.update(i, m).drop_last() =~= ms.drop_last());
    } else {
        lemma_amount_sum_update(ms.drop_last(), i, m);
        assert(ms.update(i, m).drop_last() =~= ms.drop_last().update(i, m));
        assert(ms.update(i, m).last() == ms.last());
    }
}

/// A list of positive amounts sums up to something positive, and any of its
/// prefixes to no more.
pub proof fn lemma_amount_sum_bounds(ms: Seq<MilestoneModel>, k: int)
    requires
        0 <= k <= ms.len(),
        forall|i: int| 0 <= i < ms.len() ==> (#[trigger] ms[i]).amount > 0,
    ensures
        0 <= amount_sum(ms.take(k)) <= amount_sum(ms),
        0 <= pending_sum(ms.take(k)) <= amount_sum(ms.take(k)),
    decreases ms.len(),
{
    if ms.len() > 0 {
        let rest = ms.drop_last();
        assert forall|i: int| 0 <= i < rest.len() implies (#[trigger] rest[i]).amount > 0 by {
            assert(rest[i] == ms[i]);
        }
        assert(ms[ms.len() - 1].amount > 0);
        if k == ms.len() {
            lemma_amount_sum_bounds(rest, rest.len() as int);
            assert(rest.take(rest.len() as int) =~= rest);
            assert(ms.take(k) =~= ms);
        } else {
            lemma_amount_sum_bounds(rest, k);
            assert(rest.take(k) =~= ms.take(k));
        }
    } else {
        assert(ms.take(k) =~= ms);
    }
}

/// What is left of a list of positive amounts sums up to nothing negative.
proof fn lemma_rest_nonneg(ms: Seq<MilestoneModel>, i: int)
    requires
        0 <= i < ms.len(),
        forall|i: int| 0 <= i < ms.len() ==> (#[trigger] ms[i]).amount > 0,
    ensures
        amount_sum(ms.remove(i)) >= 0,
{
    let rest = ms.remove(i);
    assert forall|j: int| 0 <= j < rest.len() implies (#[trigger] rest[j]).amount > 0 by {
        assert(rest[j] == if j < i {
            ms[j]
        } else {
            ms[j + 1]
        });
    }
    lemma_amount_sum_bounds(rest, 0);
}

/// Removing one of several milestones keeps the terms sound.
pub proof fn lemma_remove_wf(e: EscrowModel, i: int)
    requires
        e.wf(),
        e.milestones.len() > 1,
        0 <= i < e.milestones.len(),
    ensures
        e.with_terms(e.milestones.remove(i), e.total_amount - e.milestones[i].amount).wf(),
        0 < e.milestones[i].amount <= e.total_amount,
{
    let ms = e.milestones.remove(i);
    lemma_amount_sum_remove(e.milestones, i);
    lemma_rest_nonneg(e.milestones, i);
    assert forall|j: int| 0 <= j < ms.len() implies #[trigger] ms[j] == if j < i {
        e.milestones[j]
    } else {
        e.milestones[j + 1]
    } by {}
}

/// Replacing a milestone by an acceptable one that keeps the order keeps the
/// terms sound.
pub proof fn lemma_update_wf(e: EscrowModel, i: int, m: MilestoneModel)
    requires
        e.wf(),
        0 <= i < e.milestones.len(),
        m.amount > 0,
        m.description.len() <= MAX_STRING_LENGTH,
        i > 0 ==> e.milestones[i - 1].auto_release_offset <= m.auto_release_offset,
        i + 1 < e.milestones.len() ==> m.auto_release_offset <= e.milestones[i
            + 1].auto_release_offset,
        e.total_amount - e.milestones[i].amount + m.amount <= i128::MAX,
    ensures
        e.with_terms(
            e.milestones.update(i, m),
            e.total_amount - e.milestones[i].amount + m.amount,
        ).wf(),
{
    let ms = e.milestones.update(i, m);
    lemma_amount_sum_update(e.milestones, i, m);
    lemma_amount_sum_remove(e.milestones, i);
    lemma_rest_nonneg(e.milestones, i);
    assert forall|x: int, y: int| 0 <= x <= y < ms.len() implies (
    #[trigger] ms[x]).auto_release_offset <= (#[trigger] ms[y]).auto_release_offset by {
        assert(e.milestones[x].auto_release_offset <= e.milestones[y].auto_release_offset);
        if x < i {
            assert(e.milestones[x].auto_release_offset <= e.milestones[i - 1].auto_release_offset);
        }
        if y > i {
            assert(e.milestones[i + 1].auto_release_offset <= e.milestones[y].auto_release_offset);
        }
    }
}

impl EscrowContract {
    /// Lists escrow `id` under `party`.
    fn index_party_escrow(&mut self, party: Address, id: u32)
        ensures
            final(self)@ == old(self)@.index_party(party, id),
    {
        let ghost s0 = self@;
        let mut ids: Vec<u32> = match self.party_escrows.remove(&party) {
            Some(ids) => ids,
            None => Vec::new(),
        };
        ids.push(id);
        self.party_escrows.insert(party, ids);
        assert(self@.party_escrows =~= s0.index_party(party, id).party_escrows);
    }

    /// All escrow IDs where `party` is either the renter or the host, in order
    /// of creation.
    pub fn get_escrows_for_party(&self, party: Address) -> (ids: Vec<u32>)
        ensures
            ids@ == lookup(self@.party_escrows, party, Seq::empty()),
    {
        match self.party_escrows.get(&party) {
            Some(ids) => ids.clone(),
            None => Vec::new(),
        }
    }

    /// Create a new escrow with an ordered list of milestones. `renter` must
    /// call `deposit` afterward to actually lock funds.
    ///
    /// `milestones` is (description, amount, auto-release offset in seconds);
    /// the offset is measured from the deposit.
    pub fn create_escrow(
        &mut self,
        renter: Address,
        host: Address,
        asset: Address,
        milestones: Vec<Term>,
        requires_host_acceptance: bool,
        now: u64,
    ) -> (r: Result<u32, Failure>)
        requires
            old(self)@.wf(),
        ensures
            (final(self)@, r) == old(self)@.create_escrow(
                renter,
                host,
                asset,
                terms_view(milestones@),
                requires_host_acceptance,
                now,
            ),
            final(self)@.wf(),
    {
        self.demand(renter);
        let ghost s0 = self@;
        let ghost terms = terms_view(milestones@);
        if self.paused {
            return Err(Failure::Refused(Error::ContractPaused));
        }
        if renter == host {
            return Err(Failure::Refused(Error::SameParty));
        }
        if milestones.len() == 0 {
            return Err(Failure::Refused(Error::NoMilestones));
        }
        if milestones.len() > MAX_MILESTONES as usize {
            return Err(Failure::Refused(Error::TooManyMilestones));
        }

        let mut total: i128 = 0;
        let mut built: Vec<Milestone> = Vec::new();
        let mut last_offset: u64 = 0;
        let mut i: usize = 0;
        assert(milestones_of(terms.take(0)) =~= Seq::empty());
        while i < milestones.len()
            invariant
                self@ == s0,
                s0 == old(self)@.demand(renter),
                s0.wf(),
                terms == terms_view(milestones@),
                s0.create_refusal(renter, host, terms) == if terms_refusal(terms, terms.len()) is Some {
                    terms_refusal(terms, terms.len())
                } else if s0.escrow_count == u32::MAX {
                    Some(Failure::Aborted)
                } else {
                    None
                },
                i <= milestones.len(),
                terms_refusal(terms, i as nat) is None,
                built@.len() == i,
                built@.map_values(|m: Milestone| m@) =~= milestones_of(terms.take(i as int)),
                total == amount_sum(milestones_of(terms.take(i as int))),
                last_offset == if i == 0 {
                    0
                } else {
                    terms[i - 1].2
                },
            decreases milestones.len() - i,
        {
            proof {
                lemma_milestones_step(terms, i as int);
                if term_refusal(terms, i as int) is Some {
                    lemma_terms_refusal_stays(terms, (i + 1) as nat, terms.len());
                }
                lemma_terms_accepted(terms, i as nat);
            }
            assert(terms[i as int] == (
                milestones@[i as int].0@,
                milestones@[i as int].1,
                milestones@[i as int].2,
            ));
            let amount: i128 = milestones[i].1;
            let offset: u64 = milestones[i].2;
            if amount <= 0 {
                return Err(Failure::Refused(Error::InvalidAmount));
            }
            if milestones[i].0.len() > MAX_STRING_LENGTH as usize {
                return Err(Failure::Refused(Error::StringTooLong));
            }
            if offset < last_offset {
                return Err(Failure::Refused(Error::NonChronologicalMilestones));
            }
            total = match total.checked_add(amount) {
                Some(t) => t,
                None => {
                    return Err(Failure::Aborted);
                },
            };
            last_offset = offset;
            let ghost before = built@.map_values(|m: Milestone| m@);
            let m = Milestone {
                description: milestones[i].0.clone(),
                amount,
                auto_release_offset: offset,
                auto_release_at: 0,
                released: false,
                released_at: 0,
            };
            assert(m@ =~= new_milestone(terms[i as int].0, amount, offset));
            built.push(m);
            assert(built@.map_values(|m: Milestone| m@) =~= before.push(m@));
            i += 1;
        }
        assert(terms.take(i as int) =~= terms);
        if self.escrow_count == u32::MAX {
            return Err(Failure::Aborted);
        }

        let id: u32 = self.escrow_count;
        self.escrow_count = id + 1;
        let e = Escrow {
            id,
            renter,
            host,
            asset,
            total_amount: total,
            funded_amount: 0,
            milestones: built,
            status: EscrowStatus::Created,
            dispute_id: None,
            host_accepted: !requires_host_acceptance,
            requires_host_acceptance,
            created_at: now,
            ever_disputed: false,
        };
        proof {
            lemma_terms_accepted(terms, terms.len());
            assert(e@ =~= s0.new_escrow(
                renter,
                host,
                asset,
                terms,
                requires_host_acceptance,
                now,
            ));
            assert forall|i: int, j: int| 0 <= i <= j < e@.milestones.len() implies (
            #[trigger] e@.milestones[i]).auto_release_offset <= (
            #[trigger] e@.milestones[j]).auto_release_offset by {
                assert(terms[i].2 <= terms[j].2);
            }
            assert forall|i: int| 0 <= i < e@.milestones.len() implies {
                &&& (#[trigger] e@.milestones[i]).amount > 0
                &&& e@.milestones[i].description.len() <= MAX_STRING_LENGTH
            } by {
                assert(terms[i].1 > 0);
            }
            assert(e@.wf());
        }
        self.put_escrow(id, e);
        self.index_party_escrow(renter, id);
        self.index_party_escrow(host, id);
        self.publish(Event::Created { id, renter, host, total_amount: total });
        Ok(id)
    }

    /// Whether `host` can answer the proposal `id`.
    fn check_answer(&self, host: Address, id: u32) -> (r: Result<(), Failure>)
        ensures
            match self@.answer_refusal(host, id) {
                Some(f) => r == Err::<(), Failure>(f),
                None => r == Ok::<(), Failure>(()),
            },
    {
        match self.find_escrow(id) {
            Some(e) => {
                if e.host != host {
                    Err(Failure::Refused(Error::NotAuthorized))
                } else if e.status != EscrowStatus::Created {
                    Err(Failure::Refused(Error::InvalidState))
                } else {
                    Ok(())
                }
            },
            None => Err(Failure::Refused(Error::EscrowNotFound)),
        }
    }

    /// Cancels escrow `id`.
    fn cancel(&mut self, id: u32)
        requires
            old(self)@.wf(),
            old(self)@.escrows.contains_key(id),
        ensures
            final(self)@ == old(self)@.with_escrow(id, old(self)@.escrows[id].cancel()),
            final(self)@.wf(),
    {
        let ghost s0 = self@;
        let ghost e0 = s0.escrows[id];
        let mut e = self.take_escrow(id);
        e.status = EscrowStatus::Cancelled;
        proof {
            lemma_same_terms_wf(e0, e@);
        }
        self.put_escrow(id, e);
        assert(self@.escrows =~= s0.escrows.insert(id, e0.cancel()));
    }

    /// When `create_escrow` was called with `requires_host_acceptance`, the
    /// host must call this before the renter can `deposit`. Without that gate
    /// it changes nothing.
    pub fn accept_escrow(&mut self, host: Address, escrow_id: u32) -> (r: Result<(), Failure>)
        requires
            old(self)@.wf(),
        ensures
            (final(self)@, r) == old(self)@.accept_escrow(host, escrow_id),
            final(self)@.wf(),
    {
        self.demand(host);
        let ghost s0 = self@;
        let ghost e0 = s0.escrows[escrow_id];
        match self.check_answer(host, escrow_id) {
            Ok(_) => {},
            Err(f) => {
                return Err(f);
            },
        }
        let mut e = self.take_escrow(escrow_id);
        e.host_accepted = true;
        proof {
            lemma_same_terms_wf(e0, e@);
        }
        self.put_escrow(escrow_id, e);
        assert(self@.escrows =~= s0.escrows.insert(escrow_id, e@));
        Ok(())
    }

    /// Host declines proposed terms outright, cancelling the escrow before any
    /// funds move.
    pub fn reject_escrow(&mut self, host: Address, escrow_id: u32) -> (r: Result<(), Failure>)
        requires
            old(self)@.wf(),
        ensures
            (final(self)@, r) == old(self)@.reject_escrow(host, escrow_id),
            final(self)@.wf(),
    {
        self.demand(host);
        match self.check_answer(host, escrow_id) {
            Ok(_) => {},
            Err(f) => {
                return Err(f);
            },
        }
        self.cancel(escrow_id);
        Ok(())
    }

    /// Whether `renter` can edit the terms of escrow `id`.
    fn check_edit(&self, renter: Address, id: u32) -> (r: Result<&Escrow, Failure>)
        ensures
            match r {
                Ok(e) => self@.edit_refusal(renter, id) is None && e@ == self@.escrows[id],
                Err(f) => self@.edit_refusal(renter, id) == Some(f),
            },
    {
        match self.find_escrow(id) {
            Some(e) => {
                if e.renter != renter {
                    Err(Failure::Refused(Error::NotAuthorized))
                } else if e.status != EscrowStatus::Created {
                    Err(Failure::Refused(Error::InvalidState))
                } else {
                    Ok(e)
                }
            },
            None => Err(Failure::Refused(Error::EscrowNotFound)),
        }
    }

    /// Append a milestone to an escrow that has not been funded yet. Only the
    /// renter can edit the milestone list, and only before `deposit` locks it
    /// in. A host who has to accept the terms has to do so again.
    pub fn add_milestone(
        &mut self,
        renter: Address,
        escrow_id: u32,
        description: Vec<u8>,
        amount: i128,
        auto_release_offset: u64,
    ) -> (r: Result<(), Failure>)
        requires
            old(self)@.wf(),
        ensures
            (final(self)@, r) == old(self)@.add_milestone(
                renter,
                escrow_id,
                description@,
                amount,
                auto_release_offset,
            ),
            final(self)@.wf(),
    {
        self.demand(renter);
        let ghost s0 = self@;
        let ghost e0 = s0.escrows[escrow_id];
        let total: i128 = match self.check_edit(renter, escrow_id) {
            Ok(e) => {
                if amount <= 0 {
                    return Err(Failure::Refused(Error::InvalidAmount));
                }
                if description.len() > MAX_STRING_LENGTH as usize {
                    return Err(Failure::Refused(Error::StringTooLong));
                }
                if e.milestones.len() >= MAX_MILESTONES as usize {
                    return Err(Failure::Refused(Error::TooManyMilestones));
                }
                let last: &Milestone = &e.milestones[e.milestones.len() - 1];
                assert(last@ == e0.milestones.last());
                if auto_release_offset < last.auto_release_offset {
                    return Err(Failure::Refused(Error::NonChronologicalMilestones));
                }
                match e.total_amount.checked_add(amount) {
                    Some(total) => total,
                    None => {
                        proof {
                            lemma_amount_sum_bounds(e0.milestones, 0);
                        }
                        return Err(Failure::Aborted);
                    },
                }
            },
            Err(f) => {
                return Err(f);
            },
        };
        let mut e = self.take_escrow(escrow_id);
        let m = Milestone {
            description,
            amount,
            auto_release_offset,
            auto_release_at: 0,
            released: false,
            released_at: 0,
        };
        let ghost nm = new_milestone(description@, amount, auto_release_offset);
        e.milestones.push(m);
        e.total_amount = total;
        if e.requires_host_acceptance {
            e.host_accepted = false;
        }
        proof {
            assert(m@ =~= nm);
            assert(e@.milestones =~= e0.milestones.push(nm));
            assert(e@ =~= e0.with_terms(e0.milestones.push(nm), e0.total_amount + amount));
            lemma_amount_sum_push(e0.milestones, nm);
            assert(e@.wf());
        }
        self.put_escrow(escrow_id, e);
        assert(self@.escrows =~= s0.escrows.insert(escrow_id, e@));
        Ok(())
    }

    /// Remove a milestone from an unfunded escrow. At least one milestone must
    /// always remain; use `cancel_escrow` to abandon the whole thing. A host
    /// who has to accept the terms has to do so again.
    pub fn remove_milestone(&mut self, renter: Address, escrow_id: u32, milestone_index: u32) -> (r:
        Result<(), Failure>)
        requires
            old(self)@.wf(),
        ensures
            (final(self)@, r) == old(self)@.remove_milestone(renter, escrow_id, milestone_index),
            final(self)@.wf(),
    {
        self.demand(renter);
        let ghost s0 = self@;
        let ghost e0 = s0.escrows[escrow_id];
        let k: usize = milestone_index as usize;
        match self.check_edit(renter, escrow_id) {
            Ok(e) => {
                if e.milestones.len() <= 1 {
                    return Err(Failure::Refused(Error::NoMilestones));
                }
                if k >= e.milestones.len() {
                    return Err(Failure::Refused(Error::InvalidMilestone));
                }
            },
            Err(f) => {
                return Err(f);
            },
        }
        let mut e = self.take_escrow(escrow_id);
        proof {
            lemma_remove_wf(e0, k as int);
            assert(e@.milestones[k as int] == e.milestones[k as int]@);
        }
        let m = e.milestones.remove(k);
        e.total_amount = e.total_amount - m.amount;
        if e.requires_host_acceptance {
            e.host_accepted = false;
        }
        proof {
            let ms = e0.milestones.remove(k as int);
            assert(e@.milestones =~= ms);
            assert(e@ =~= e0.with_terms(ms, e0.total_amount - e0.milestones[k as int].amount));
        }
        self.put_escrow(escrow_id, e);
        assert(self@.escrows =~= s0.escrows.insert(escrow_id, e@));
        Ok(())
    }

    /// Replace the terms of a milestone of an unfunded escrow. A host who has
    /// to accept the terms has to do so again.
    pub fn update_milestone(
        &mut self,
        renter: Address,
        escrow_id: u32,
        milestone_index: u32,
        description: Vec<u8>,
        amount: i128,
        auto_release_offset: u64,
    ) -> (r: Result<(), Failure>)
        requires
            old(self)@.wf(),
        ensures
            (final(self)@, r) == old(self)@.update_milestone(
                renter,
                escrow_id,
                milestone_index,
                description@,
                amount,
                auto_release_offset,
            ),
            final(self)@.wf(),
    {
        self.demand(renter);
        let ghost s0 = self@;
        let ghost e0 = s0.escrows[escrow_id];
        let k: usize = milestone_index as usize;
        let total: i128 = match self.check_edit(renter, escrow_id) {
            Ok(e) => {
                if amount <= 0 {
                    return Err(Failure::Refused(Error::InvalidAmount));
                }
                if description.len() > MAX_STRING_LENGTH as usize {
                    return Err(Failure::Refused(Error::StringTooLong));
                }
                if k >= e.milestones.len() {
                    return Err(Failure::Refused(Error::InvalidMilestone));
                }
                assert(forall|i: int|
                    0 <= i < e0.milestones.len() ==> #[trigger] e0.milestones[i]
                        == e.milestones@[i]@);
                if k > 0 && auto_release_offset < e.milestones[k - 1].auto_release_offset {
                    return Err(Failure::Refused(Error::NonChronologicalMilestones));
                }
                if k + 1 < e.milestones.len() && auto_release_offset > e.milestones[k
                    + 1].auto_release_offset {
                    return Err(Failure::Refused(Error::NonChronologicalMilestones));
                }
                proof {
                    lemma_amount_sum_remove(e0.milestones, k as int);
                    lemma_rest_nonneg(e0.milestones, k as int);
                }
                match (e.total_amount - e.milestones[k].amount).checked_add(amount) {
                    Some(total) => total,
                    None => {
                        return Err(Failure::Aborted);
                    },
                }
            },
            Err(f) => {
                return Err(f);
            },
        };
        let mut e = self.take_escrow(escrow_id);
        let m = Milestone {
            description,
            amount,
            auto_release_offset,
            auto_release_at: 0,
            released: false,
            released_at: 0,
        };
        let ghost nm = new_milestone(description@, amount, auto_release_offset);
        e.milestones[k] = m;
        e.total_amount = total;
        if e.requires_host_acceptance {
            e.host_accepted = false;
        }
        proof {
            let ms = e0.milestones.update(k as int, nm);
            assert(m@ =~= nm);
            assert(e@.milestones =~= ms);
            assert(e@ =~= e0.with_terms(
                ms,
                e0.total_amount - e0.milestones[k as int].amount + amount,
            ));
            lemma_update_wf(e0, k as int, nm);
        }
        self.put_escrow(escrow_id, e);
        assert(self@.escrows =~= s0.escrows.insert(escrow_id, e@));
        Ok(())
    }

    /// Renter locks the full escrow amount. Sets each milestone's
    /// `auto_release_at` relative to this deposit timestamp.
    pub fn deposit(&mut self, renter: Address, escrow_id: u32, now: u64) -> (r: Result<(), Failure>)
        requires
            old(self)@.wf(),
        ensures
            (final(self)@, r) == old(self)@.deposit(renter, escrow_id, now),
            final(self)@.wf(),
    {
        self.demand(renter);
        let ghost s0 = self@;
        let ghost e0 = s0.escrows[escrow_id];
        if self.paused {
            return Err(Failure::Refused(Error::ContractPaused));
        }
        match self.find_escrow(escrow_id) {
            Some(e) => {
                if e.renter != renter {
                    return Err(Failure::Refused(Error::NotAuthorized));
                }
                if e.status != EscrowStatus::Created {
                    return Err(Failure::Refused(Error::InvalidState));
                }
                if !e.host_accepted {
                    return Err(Failure::Refused(Error::HostAcceptancePending));
                }
                let last: &Milestone = &e.milestones[e.milestones.len() - 1];
                assert(last@ == e0.milestones.last());
                if now.checked_add(last.auto_release_offset).is_none() {
                    return Err(Failure::Aborted);
                }
            },
            None => {
                return Err(Failure::Refused(Error::EscrowNotFound));
            },
        }
        let mut e = self.take_escrow(escrow_id);
        let mut i: usize = 0;
        while i < e.milestones.len()
            invariant
                e0.wf(),
                now + e0.milestones.last().auto_release_offset <= u64::MAX,
                i <= e.milestones.len(),
                e@ == (EscrowModel { milestones: e@.milestones, ..e0 }),
                e@.milestones.len() == e0.milestones.len(),
                forall|j: int|
                    0 <= j < e0.milestones.len() ==> #[trigger] e@.milestones[j] == if j < i {
                        e0.fund(now).milestones[j]
                    } else {
                        e0.milestones[j]
                    },
            decreases e.milestones.len() - i,
        {
            let ghost ms = e@.milestones;
            proof {
                assert(e.milestones@[i as int]@ == ms[i as int]);
                let n = e0.milestones.len();
                assert(e0.milestones[i as int].auto_release_offset <= e0.milestones[n
                    - 1].auto_release_offset);
            }
            let at: u64 = now + e.milestones[i].auto_release_offset;
            e.milestones[i].auto_release_at = at;
            assert(e@.milestones =~= ms.update(i as int, e0.fund(now).milestones[i as int]));
            i += 1;
        }
        let total: i128 = e.total_amount;
        let asset: Address = e.asset;
        e.funded_amount = total;
        e.status = EscrowStatus::Active;
        assert(e@ =~= e0.fund(now));
        proof {
            lemma_same_terms_wf(e0, e@);
        }
        self.put_escrow(escrow_id, e);
        assert(self@.escrows =~= s0.escrows.insert(escrow_id, e0.fund(now)));
        self.emit(Effect::Collect { asset, from: renter, amount: total });
        self.publish(Event::Funded { id: escrow_id, total_amount: total });
        Ok(())
    }

    /// Either party can cancel an escrow that has not been funded yet. Once
    /// `deposit` has been called, use `mutual_cancel` instead.
    pub fn cancel_escrow(&mut self, caller: Address, escrow_id: u32) -> (r: Result<(), Failure>)
        requires
            old(self)@.wf(),
        ensures
            (final(self)@, r) == old(self)@.cancel_escrow(caller, escrow_id),
            final(self)@.wf(),
    {
        self.demand(caller);
        match self.find_escrow(escrow_id) {
            Some(e) => {
                if caller != e.renter && caller != e.host {
                    return Err(Failure::Refused(Error::NotAuthorized));
                }
                if e.status != EscrowStatus::Created {
                    return Err(Failure::Refused(Error::InvalidState));
                }
            },
            None => {
                return Err(Failure::Refused(Error::EscrowNotFound));
            },
        }
        self.cancel(escrow_id);
        self.publish(Event::Cancelled { id: escrow_id });
        Ok(())
    }

    /// Permissionless cleanup for an escrow nobody ever funded or explicitly
    /// cancelled, once `UNFUNDED_EXPIRY_WINDOW` has passed since creation.
    pub fn expire_unfunded_escrow(&mut self, escrow_id: u32, now: u64) -> (r: Result<(), Failure>)
        requires
            old(self)@.wf(),
        ensures
            (final(self)@, r) == old(self)@.expire_unfunded_escrow(escrow_id, now),
            final(self)@.wf(),
    {
        match self.find_escrow(escrow_id) {
            Some(e) => {
                if e.status != EscrowStatus::Created {
                    return Err(Failure::Refused(Error::InvalidState));
                }
                match e.created_at.checked_add(UNFUNDED_EXPIRY_WINDOW) {
                    Some(at) => {
                        if now < at {
                            return Err(Failure::Refused(Error::NotYetExpired));
                        }
                    },
                    None => {
                        return Err(Failure::Aborted);
                    },
                }
            },
            None => {
                return Err(Failure::Refused(Error::EscrowNotFound));
            },
        }
        self.cancel(escrow_id);
        self.publish(Event::Expired { id: escrow_id });
        Ok(())
    }

    /// Both parties agree to unwind a funded, undisputed escrow early. Refunds
    /// every not-yet-released milestone amount back to the renter and closes
    /// the escrow.
    pub fn mutual_cancel(&mut self, renter: Address, host: Address, escrow_id: u32) -> (r: Result<
        (),
        Failure,
    >)
        requires
            old(self)@.wf(),
        ensures
            (final(self)@, r) == old(self)@.mutual_cancel(renter, host, escrow_id),
            final(self)@.wf(),
    {
        self.demand(renter);
        self.demand(host);
        let ghost s0 = self@;
        let ghost e0 = s0.escrows[escrow_id];
        match self.find_escrow(escrow_id) {
            Some(e) => {
                if e.renter != renter || e.host != host {
                    return Err(Failure::Refused(Error::NotAuthorized));
                }
                if e.status != EscrowStatus::Active {
                    return Err(Failure::Refused(Error::InvalidState));
                }
            },
            None => {
                return Err(Failure::Refused(Error::EscrowNotFound));
            },
        }
        let mut e = self.take_escrow(escrow_id);
        let mut refund: i128 = 0;
        let mut i: usize = 0;
        while i < e.milestones.len()
            invariant
                e0.wf(),
                i <= e.milestones.len(),
                e@ == (EscrowModel { milestones: e@.milestones, ..e0 }),
                e@.milestones.len() == e0.milestones.len(),
                forall|j: int|
                    0 <= j < e0.milestones.len() ==> #[trigger] e@.milestones[j] == if j < i {
                        e0.unwind().milestones[j]
                    } else {
                        e0.milestones[j]
                    },
                refund == pending_sum(e0.milestones.take(i as int)),
            decreases e.milestones.len() - i,
        {
            let ghost ms = e@.milestones;
            proof {
                assert(e.milestones@[i as int]@ == ms[i as int]);
                assert(e0.milestones.take(i + 1).drop_last() =~= e0.milestones.take(i as int));
                lemma_amount_sum_bounds(e0.milestones, i + 1);
            }
            if !e.milestones[i].released {
                refund = refund + e.milestones[i].amount;
                e.milestones[i].released = true;
            }
            assert(e@.milestones =~= ms.update(i as int, e0.unwind().milestones[i as int]));
            i += 1;
        }
        assert(e0.milestones.take(i as int) =~= e0.milestones);
        let asset: Address = e.asset;
        e.status = EscrowStatus::Cancelled;
        assert(e@ =~= e0.unwind());
        proof {
            lemma_same_terms_wf(e0, e@);
        }
        self.put_escrow(escrow_id, e);
        assert(self@.escrows =~= s0.escrows.insert(escrow_id, e0.unwind()));
        if refund > 0 {
            self.emit(Effect::Pay { asset, to: renter, amount: refund });
        }
        self.publish(Event::Mutual { id: escrow_id, refund });
        Ok(())
    }
}

} // verus!
