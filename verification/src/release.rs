//! Release of milestones to the host.

use crate::errors::{Error, Failure};
use crate::params::{CLEAN_COMPLETION_REPUTATION, MAX_DEADLINE_EXTENSION_SECONDS};
use crate::state::{amount_sum, refused, EscrowContract, State};
use crate::types::{Address, Escrow, EscrowModel, EscrowStatus, Event, Milestone, MilestoneModel};
use vstd::prelude::*;

verus! {

/// The milestone once it is no longer pending; `at` is when the host was paid,
/// or 0.
pub open spec fn settled(m: MilestoneModel, at: u64) -> MilestoneModel {
    MilestoneModel { released: true, released_at: at, ..m }
}

impl EscrowModel {
    /// The escrow once milestone `i` is released to the host at time `now`.
    pub open spec fn release(self, i: int, now: u64) -> EscrowModel {
        let e = EscrowModel {
            milestones: self.milestones.update(i, settled(self.milestones[i], now)),
            ..self
        };
        if e.all_released() {
            EscrowModel { status: EscrowStatus::Completed, ..e }
        } else {
            e
        }
    }

    /// The escrow once every pending milestone is released to the host at time
    /// `now`.
    pub open spec fn release_all(self, now: u64) -> EscrowModel {
        EscrowModel {
            milestones: self.milestones.map_values(
                |m: MilestoneModel|
                    if m.released {
                        m
                    } else {
                        settled(m, now)
                    },
            ),
            status: EscrowStatus::Completed,
            ..self
        }
    }

    /// The escrow with the auto-release of milestone `i` moved to `at`.
    pub open spec fn with_deadline(self, i: int, at: u64) -> EscrowModel {
        EscrowModel {
            milestones: self.milestones.update(
                i,
                MilestoneModel { auto_release_at: at, ..self.milestones[i] },
            ),
            ..self
        }
    }

    /// Whether releasing milestone `i` leaves nothing pending.
    pub open spec fn is_last_pending(self, i: int) -> bool {
        forall|j: int|
            0 <= j < self.milestones.len() && j != i ==> (#[trigger] self.milestones[j]).released
    }
}

impl State {
    /// Whether both parties can be credited for a clean completion of `e`.
    pub open spec fn bonus_fits(self, e: EscrowModel) -> bool {
        e.ever_disputed || {
            &&& self.reputation_fits(e.renter, CLEAN_COMPLETION_REPUTATION as int)
            &&& self.reputation_fits(e.host, CLEAN_COMPLETION_REPUTATION as int)
        }
    }

    /// The state once both parties are credited for a clean completion of `e`;
    /// an escrow that was ever disputed earns nothing.
    pub open spec fn credit_completion(self, e: EscrowModel) -> State {
        if e.ever_disputed {
            self
        } else {
            self.adjust_reputation(e.renter, CLEAN_COMPLETION_REPUTATION as int).adjust_reputation(
                e.host,
                CLEAN_COMPLETION_REPUTATION as int,
            )
        }
    }

    /// Why milestone `i` of `e` cannot be released.
    pub open spec fn release_refusal(self, e: EscrowModel, i: u32) -> Option<Failure> {
        if e.status != EscrowStatus::Active {
            refused(Error::InvalidState)
        } else if i >= e.milestones.len() {
            refused(Error::InvalidMilestone)
        } else if e.milestones[i as int].released {
            refused(Error::AlreadyReleased)
        } else if !self.payout_fits(e.host, e.milestones[i as int].amount as int) {
            Some(Failure::Aborted)
        } else if e.is_last_pending(i as int) && !self.bonus_fits(e) {
            Some(Failure::Aborted)
        } else {
            None
        }
    }

    /// The state once the payout of milestone `i` of `e` to the host is asked
    /// for and announced.
    pub open spec fn announce_release(self, e: EscrowModel, i: int) -> State {
        self.pay_out(e.asset, e.host, e.milestones[i].amount as int).publish(
            Event::Released {
                id: e.id,
                milestone_index: i as u32,
                amount: e.milestones[i].amount,
                host: e.host,
            },
        )
    }

    /// The state once the payouts of the pending ones among the first `n`
    /// milestones of `e` are asked for and announced, in order.
    pub open spec fn announce_releases(self, e: EscrowModel, n: nat) -> State
        decreases n,
    {
        if n == 0 {
            self
        } else {
            let s = self.announce_releases(e, (n - 1) as nat);
            if e.milestones[n - 1].released {
                s
            } else {
                s.announce_release(e, n - 1)
            }
        }
    }

    /// The state once milestone `i` of escrow `id` is released to the host; the
    /// last milestone completes the escrow.
    pub open spec fn release(self, id: u32, i: u32, now: u64) -> State {
        let e = self.escrows[id];
        let s = self.announce_release(e, i as int).with_escrow(id, e.release(i as int, now));
        if e.is_last_pending(i as int) {
            s.credit_completion(e).publish(Event::Complete { id })
        } else {
            s
        }
    }

    /// Renter confirms a milestone and releases it to the host early.
    pub open spec fn confirm_milestone(
        self,
        renter: Address,
        id: u32,
        i: u32,
        now: u64,
    ) -> (State, Result<(), Failure>) {
        let s = self.demand(renter);
        if !s.escrows.contains_key(id) {
            (s, Err(Failure::Refused(Error::EscrowNotFound)))
        } else if s.escrows[id].renter != renter {
            (s, Err(Failure::Refused(Error::NotAuthorized)))
        } else {
            match s.release_refusal(s.escrows[id], i) {
                Some(f) => (s, Err(f)),
                None => (s.release(id, i, now), Ok(())),
            }
        }
    }

    /// Why the pending milestones of escrow `id` cannot all be released.
    pub open spec fn confirm_all_refusal(self, renter: Address, id: u32) -> Option<Failure> {
        if !self.escrows.contains_key(id) {
            refused(Error::EscrowNotFound)
        } else {
            let e = self.escrows[id];
            if e.renter != renter {
                refused(Error::NotAuthorized)
            } else if e.all_released() {
                None
            } else if e.status != EscrowStatus::Active {
                refused(Error::InvalidState)
            } else if exists|i: int|
                0 <= i < e.milestones.len() && !(#[trigger] e.milestones[i]).released
                    && !self.payout_fits(e.host, e.milestones[i].amount as int) {
                Some(Failure::Aborted)
            } else if !self.bonus_fits(e) {
                Some(Failure::Aborted)
            } else {
                None
            }
        }
    }

    /// Renter releases every pending milestone at once, which completes the
    /// escrow. Where nothing is pending, nothing changes.
    pub open spec fn confirm_all_milestones(
        self,
        renter: Address,
        id: u32,
        now: u64,
    ) -> (State, Result<(), Failure>) {
        let s = self.demand(renter);
        match s.confirm_all_refusal(renter, id) {
            Some(f) => (s, Err(f)),
            None => {
                let e = s.escrows[id];
                if e.all_released() {
                    (s, Ok(()))
                } else {
                    (
                        s.announce_releases(e, e.milestones.len()).with_escrow(
                            id,
                            e.release_all(now),
                        ).credit_completion(e).publish(Event::Complete { id }),
                        Ok(()),
                    )
                }
            },
        }
    }

    /// Why milestone `i` of escrow `id` cannot be auto-released at time `now`.
    pub open spec fn auto_release_refusal(self, id: u32, i: u32, now: u64) -> Option<Failure> {
        if !self.escrows.contains_key(id) {
            refused(Error::EscrowNotFound)
        } else {
            let e = self.escrows[id];
            if e.status == EscrowStatus::Disputed {
                refused(Error::EscrowDisputed)
            } else if i >= e.milestones.len() {
                refused(Error::InvalidMilestone)
            } else if now < e.milestones[i as int].auto_release_at {
                refused(Error::TooEarly)
            } else {
                self.release_refusal(e, i)
            }
        }
    }

    /// Anyone releases a milestone whose timeout has passed.
    pub open spec fn check_auto_release(self, id: u32, i: u32, now: u64) -> (
        State,
        Result<(), Failure>,
    ) {
        match self.auto_release_refusal(id, i, now) {
            Some(f) => (self, Err(f)),
            None => (self.release(id, i, now), Ok(())),
        }
    }

    /// Why the deadline of milestone `i` cannot be moved by `extra` seconds.
    pub open spec fn extend_deadline_refusal(
        self,
        renter: Address,
        id: u32,
        i: u32,
        extra: u64,
    ) -> Option<Failure> {
        if !self.escrows.contains_key(id) {
            refused(Error::EscrowNotFound)
        } else {
            let e = self.escrows[id];
            if e.renter != renter {
                refused(Error::NotAuthorized)
            } else if e.status != EscrowStatus::Active {
                refused(Error::InvalidState)
            } else if extra == 0 || extra > MAX_DEADLINE_EXTENSION_SECONDS {
                refused(Error::InvalidAmount)
            } else if i >= e.milestones.len() {
                refused(Error::InvalidMilestone)
            } else if e.milestones[i as int].released {
                refused(Error::AlreadyReleased)
            } else if e.milestones[i as int].auto_release_at + extra > u64::MAX {
                refused(Error::InvalidAmount)
            } else {
                None
            }
        }
    }

    /// Renter moves a milestone's auto-release to a later time.
    pub open spec fn extend_milestone_deadline(
        self,
        renter: Address,
        id: u32,
        i: u32,
        extra: u64,
    ) -> (State, Result<(), Failure>) {
        let s = self.demand(renter);
        match s.extend_deadline_refusal(renter, id, i, extra) {
            Some(f) => (s, Err(f)),
            None => {
                let e = s.escrows[id];
                let at = (e.milestones[i as int].auto_release_at + extra) as u64;
                (s.with_escrow(id, e.with_deadline(i as int, at)), Ok(()))
            },
        }
    }
}

/// The sum of amounts depends on nothing but the amounts.
pub proof fn lemma_amount_sum_same(a: Seq<MilestoneModel>, b: Seq<MilestoneModel>)
    requires
        a.len() == b.len(),
        forall|i: int| 0 <= i < a.len() ==> (#[trigger] a[i]).amount == b[i].amount,
    ensures
        amount_sum(a) == amount_sum(b),
    decreases a.len(),
{
    if a.len() > 0 {
        lemma_amount_sum_same(a.drop_last(), b.drop_last());
    }
}

/// An escrow whose milestones keep their terms stays sound.
pub proof fn lemma_same_terms_wf(e: EscrowModel, f: EscrowModel)
    requires
        e.wf(),
        f.renter == e.renter,
        f.host == e.host,
        f.total_amount == e.total_amount,
        f.milestones.len() == e.milestones.len(),
        forall|i: int|
            0 <= i < e.milestones.len() ==> {
                &&& (#[trigger] f.milestones[i]).amount == e.milestones[i].amount
                &&& f.milestones[i].description == e.milestones[i].description
                &&& f.milestones[i].auto_release_offset == e.milestones[i].auto_release_offset
            },
    ensures
        f.wf(),
{
    lemma_amount_sum_same(f.milestones, e.milestones);
}

/// A release completes an escrow exactly when nothing else was pending, and
/// otherwise leaves its status alone.
pub proof fn lemma_release_completes(e: EscrowModel, i: int, now: u64)
    requires
        0 <= i < e.milestones.len(),
    ensures
        e.release(i, now).all_released() <==> e.is_last_pending(i),
        e.release(i, now).status == if e.is_last_pending(i) {
            EscrowStatus::Completed
        } else {
            e.status
        },
{
    let f = EscrowModel {
        milestones: e.milestones.update(i, settled(e.milestones[i], now)),
        ..e
    };
    assert(f.milestones[i].released);
    if e.is_last_pending(i) {
        assert forall|j: int| 0 <= j < f.milestones.len() implies (
        #[trigger] f.milestones[j]).released by {
            if j != i {
                assert(e.milestones[j].released);
            }
        }
        assert(f.all_released());
    } else {
        let j = choose|j: int|
            0 <= j < e.milestones.len() && j != i && !(#[trigger] e.milestones[j]).released;
        assert(!f.milestones[j].released);
    }
}

/// Announcing releases touches nothing but the effects, and depends on nothing
/// but them and the fee rules.
pub proof fn lemma_announce_releases_frame(s: State, t: State, e: EscrowModel, n: nat)
    requires
        t.effects == s.effects,
        t.fee_config == s.fee_config,
        t.fee_exempt == s.fee_exempt,
    ensures
        s.announce_releases(e, n) == (State { effects: s.announce_releases(e, n).effects, ..s }),
        t.announce_releases(e, n) == (State { effects: s.announce_releases(e, n).effects, ..t }),
    decreases n,
{
    if n > 0 {
        lemma_announce_releases_frame(s, t, e, (n - 1) as nat);
    }
}

/// Whether no milestone of `e` is pending.
pub(crate) fn all_released(e: &Escrow) -> (b: bool)
    ensures
        b == e@.all_released(),
{
    let mut i: usize = 0;
    while i < e.milestones.len()
        invariant
            i <= e.milestones.len(),
            forall|j: int| 0 <= j < i ==> (#[trigger] e@.milestones[j]).released,
        decreases e.milestones.len() - i,
    {
        if !e.milestones[i].released {
            assert(!e@.milestones[i as int].released);
            return false;
        }
        i += 1;
    }
    true
}

/// Whether releasing milestone `i` of `e` leaves nothing pending.
pub(crate) fn is_last_pending(e: &Escrow, i: usize) -> (b: bool)
    ensures
        b == e@.is_last_pending(i as int),
{
    let mut j: usize = 0;
    while j < e.milestones.len()
        invariant
            j <= e.milestones.len(),
            forall|k: int| 0 <= k < j && k != i ==> (#[trigger] e@.milestones[k]).released,
        decreases e.milestones.len() - j,
    {
        if j != i && !e.milestones[j].released {
            assert(!e@.milestones[j as int].released);
            return false;
        }
        j += 1;
    }
    true
}

impl EscrowContract {
    /// Whether both parties can be credited for a clean completion of `e`.
    fn bonus_fits(&self, e: &Escrow) -> (b: bool)
        ensures
            b == self@.bonus_fits(e@),
    {
        e.ever_disputed || (self.reputation_can_move(e.renter, CLEAN_COMPLETION_REPUTATION)
            && self.reputation_can_move(e.host, CLEAN_COMPLETION_REPUTATION))
    }

    fn credit_completion(
        &mut self,
        renter: Address,
        host: Address,
        ever_disputed: bool,
        Ghost(e): Ghost<EscrowModel>,
    )
        requires
            e.renter == renter,
            e.host == host,
            e.ever_disputed == ever_disputed,
            e.renter != e.host,
            old(self)@.bonus_fits(e),
        ensures
            final(self)@ == old(self)@.credit_completion(e),
    {
        if !ever_disputed {
            self.adjust_reputation(renter, CLEAN_COMPLETION_REPUTATION);
            self.adjust_reputation(host, CLEAN_COMPLETION_REPUTATION);
        }
    }

    fn release_milestone_internal(&mut self, id: u32, i: u32, now: u64) -> (r: Result<(), Failure>)
        requires
            old(self)@.wf(),
            old(self)@.escrows.contains_key(id),
        ensures
            match old(self)@.release_refusal(old(self)@.escrows[id], i) {
                Some(f) => r == Err::<(), Failure>(f) && final(self)@ == old(self)@,
                None => r == Ok::<(), Failure>(()) && final(self)@ == old(self)@.release(
                    id,
                    i,
                    now,
                ),
            },
            final(self)@.wf(),
    {
        let ghost s0 = self@;
        let ghost e0 = s0.escrows[id];
        let k: usize = i as usize;
        let last: bool = match self.find_escrow(id) {
            Some(e) => {
                if e.status != EscrowStatus::Active {
                    return Err(Failure::Refused(Error::InvalidState));
                }
                if k >= e.milestones.len() {
                    return Err(Failure::Refused(Error::InvalidMilestone));
                }
                let m: &Milestone = &e.milestones[k];
                assert(m@ == e0.milestones[k as int]);
                if m.released {
                    return Err(Failure::Refused(Error::AlreadyReleased));
                }
                if self.fee_split(e.host, m.amount).is_none() {
                    return Err(Failure::Aborted);
                }
                let last: bool = is_last_pending(e, k);
                if last && !self.bonus_fits(e) {
                    return Err(Failure::Aborted);
                }
                last
            },
            None => {
                return Err(Failure::Refused(Error::EscrowNotFound));
            },
        };

        let mut e = self.take_escrow(id);
        let amount: i128 = e.milestones[k].amount;
        let (renter, host): (Address, Address) = (e.renter, e.host);
        let ever_disputed: bool = e.ever_disputed;
        assert(e@.milestones[k as int].amount == amount);
        e.milestones[k].released = true;
        e.milestones[k].released_at = now;
        if last {
            e.status = EscrowStatus::Completed;
        }
        proof {
            lemma_release_completes(e0, k as int, now);
            assert(e@.milestones =~= e0.release(k as int, now).milestones);
            assert(e@ =~= e0.release(k as int, now));
            lemma_same_terms_wf(e0, e@);
        }
        let asset: Address = e.asset;
        self.put_escrow(id, e);
        assert(self@.escrows =~= s0.escrows.insert(id, e0.release(k as int, now)));
        self.pay_out(asset, host, amount);
        self.publish(Event::Released { id, milestone_index: i, amount, host });
        if last {
            self.credit_completion(renter, host, ever_disputed, Ghost(e0));
            self.publish(Event::Complete { id });
        }
        assert(self@ =~= s0.release(id, i, now));
        Ok(())
    }

    /// Renter explicitly confirms a milestone is satisfied and releases it to
    /// the host early, before the auto-release timeout.
    pub fn confirm_milestone(&mut self, renter: Address, escrow_id: u32, milestone_index: u32, now: u64)
        -> (r: Result<(), Failure>)
        requires
            old(self)@.wf(),
        ensures
            (final(self)@, r) == old(self)@.confirm_milestone(
                renter,
                escrow_id,
                milestone_index,
                now,
            ),
            final(self)@.wf(),
    {
        self.demand(renter);
        match self.find_escrow(escrow_id) {
            Some(e) => {
                if e.renter != renter {
                    return Err(Failure::Refused(Error::NotAuthorized));
                }
            },
            None => {
                return Err(Failure::Refused(Error::EscrowNotFound));
            },
        }
        self.release_milestone_internal(escrow_id, milestone_index, now)
    }

    /// Whether the fee on every pending milestone of `e` can be computed.
    fn payouts_fit(&self, e: &Escrow) -> (b: bool)
        requires
            self@.wf(),
            e@.wf(),
        ensures
            b == !exists|i: int|
                0 <= i < e@.milestones.len() && !(#[trigger] e@.milestones[i]).released
                    && !self@.payout_fits(e@.host, e@.milestones[i].amount as int),
    {
        let mut i: usize = 0;
        while i < e.milestones.len()
            invariant
                self@.wf(),
                e@.wf(),
                i <= e.milestones.len(),
                forall|j: int|
                    0 <= j < i && !(#[trigger] e@.milestones[j]).released ==> self@.payout_fits(
                        e@.host,
                        e@.milestones[j].amount as int,
                    ),
            decreases e.milestones.len() - i,
        {
            let m: &Milestone = &e.milestones[i];
            assert(m@ == e@.milestones[i as int]);
            if !m.released && self.fee_split(e.host, m.amount).is_none() {
                return false;
            }
            i += 1;
        }
        true
    }

    /// Convenience wrapper around `confirm_milestone` that releases every
    /// remaining unreleased milestone in one call.
    pub fn confirm_all_milestones(&mut self, renter: Address, escrow_id: u32, now: u64) -> (r: Result<
        (),
        Failure,
    >)
        requires
            old(self)@.wf(),
        ensures
            (final(self)@, r) == old(self)@.confirm_all_milestones(renter, escrow_id, now),
            final(self)@.wf(),
    {
        self.demand(renter);
        let ghost s0 = self@;
        let ghost e0 = s0.escrows[escrow_id];
        match self.find_escrow(escrow_id) {
            Some(e) => {
                if e.renter != renter {
                    return Err(Failure::Refused(Error::NotAuthorized));
                }
                if all_released(e) {
                    return Ok(());
                }
                if e.status != EscrowStatus::Active {
                    return Err(Failure::Refused(Error::InvalidState));
                }
                if !self.payouts_fit(e) || !self.bonus_fits(e) {
                    return Err(Failure::Aborted);
                }
            },
            None => {
                return Err(Failure::Refused(Error::EscrowNotFound));
            },
        }

        let mut e = self.take_escrow(escrow_id);
        let ghost s1 = self@;
        let mut i: usize = 0;
        while i < e.milestones.len()
            invariant
                s1 == (State { escrows: s0.escrows.remove(escrow_id), ..s0 }),
                s0.wf(),
                self@.wf(),
                e0.wf(),
                e0.id == escrow_id,
                i <= e.milestones.len(),
                e@ == (EscrowModel { milestones: e@.milestones, ..e0 }),
                e@.milestones.len() == e0.milestones.len(),
                forall|j: int|
                    0 <= j < e0.milestones.len() ==> #[trigger] e@.milestones[j] == if j < i
                        && !e0.milestones[j].released {
                        settled(e0.milestones[j], now)
                    } else {
                        e0.milestones[j]
                    },
                forall|j: int|
                    0 <= j < e0.milestones.len() && !(#[trigger] e0.milestones[j]).released
                        ==> s0.payout_fits(e0.host, e0.milestones[j].amount as int),
                self@ == s1.announce_releases(e0, i as nat),
                self@ == (State { effects: self@.effects, ..s1 }),
            decreases e.milestones.len() - i,
        {
            let ghost ms = e@.milestones;
            assert(e.milestones[i as int]@ == ms[i as int]);
            if !e.milestones[i].released {
                let amount: i128 = e.milestones[i].amount;
                e.milestones[i].released = true;
                e.milestones[i].released_at = now;
                assert(e@.milestones =~= ms.update(i as int, settled(e0.milestones[i as int], now)));
                self.pay_out(e.asset, e.host, amount);
                self.publish(
                    Event::Released {
                        id: escrow_id,
                        milestone_index: i as u32,
                        amount,
                        host: e.host,
                    },
                );
            }
            i += 1;
        }
        e.status = EscrowStatus::Completed;
        let (renter, host): (Address, Address) = (e.renter, e.host);
        let ever_disputed: bool = e.ever_disputed;
        assert(e@ =~= e0.release_all(now));
        proof {
            lemma_same_terms_wf(e0, e@);
            lemma_announce_releases_frame(s0, s1, e0, e0.milestones.len());
        }
        self.put_escrow(escrow_id, e);
        self.credit_completion(renter, host, ever_disputed, Ghost(e0));
        self.publish(Event::Complete { id: escrow_id });
        assert(self@.escrows =~= s0.escrows.insert(escrow_id, e0.release_all(now)));
        assert(self@ =~= old(self)@.confirm_all_milestones(renter, escrow_id, now).0);
        Ok(())
    }

    /// Anyone can call this to trigger auto-release once the timeout has passed
    /// and no dispute is open.
    pub fn check_auto_release(&mut self, escrow_id: u32, milestone_index: u32, now: u64) -> (r: Result<
        (),
        Failure,
    >)
        requires
            old(self)@.wf(),
        ensures
            (final(self)@, r) == old(self)@.check_auto_release(escrow_id, milestone_index, now),
            final(self)@.wf(),
    {
        match self.find_escrow(escrow_id) {
            Some(e) => {
                if e.status == EscrowStatus::Disputed {
                    return Err(Failure::Refused(Error::EscrowDisputed));
                }
                let k: usize = milestone_index as usize;
                if k >= e.milestones.len() {
                    return Err(Failure::Refused(Error::InvalidMilestone));
                }
                assert(e@.milestones[k as int] == e.milestones[k as int]@);
                if now < e.milestones[k].auto_release_at {
                    return Err(Failure::Refused(Error::TooEarly));
                }
            },
            None => {
                return Err(Failure::Refused(Error::EscrowNotFound));
            },
        }
        self.release_milestone_internal(escrow_id, milestone_index, now)
    }

    /// Renter moves a milestone's auto-release to a later time, by at most
    /// `MAX_DEADLINE_EXTENSION_SECONDS` per call.
    pub fn extend_milestone_deadline(
        &mut self,
        renter: Address,
        escrow_id: u32,
        milestone_index: u32,
        additional_seconds: u64,
    ) -> (r: Result<(), Failure>)
        requires
            old(self)@.wf(),
        ensures
            (final(self)@, r) == old(self)@.extend_milestone_deadline(
                renter,
                escrow_id,
                milestone_index,
                additional_seconds,
            ),
            final(self)@.wf(),
    {
        self.demand(renter);
        let ghost s0 = self@;
        let ghost e0 = s0.escrows[escrow_id];
        let k: usize = milestone_index as usize;
        let at: u64 = match self.find_escrow(escrow_id) {
            Some(e) => {
                if e.renter != renter {
                    return Err(Failure::Refused(Error::NotAuthorized));
                }
                if e.status != EscrowStatus::Active {
                    return Err(Failure::Refused(Error::InvalidState));
                }
                if additional_seconds == 0 || additional_seconds > MAX_DEADLINE_EXTENSION_SECONDS {
                    return Err(Failure::Refused(Error::InvalidAmount));
                }
                if k >= e.milestones.len() {
                    return Err(Failure::Refused(Error::InvalidMilestone));
                }
                assert(e@.milestones[k as int] == e.milestones[k as int]@);
                if e.milestones[k].released {
                    return Err(Failure::Refused(Error::AlreadyReleased));
                }
                match e.milestones[k].auto_release_at.checked_add(additional_seconds) {
                    Some(at) => at,
                    None => {
                        return Err(Failure::Refused(Error::InvalidAmount));
                    },
                }
            },
            None => {
                return Err(Failure::Refused(Error::EscrowNotFound));
            },
        };
        let mut e = self.take_escrow(escrow_id);
        e.milestones[k].auto_release_at = at;
        assert(e@ =~= e0.with_deadline(k as int, at));
        proof {
            lemma_same_terms_wf(e0, e@);
        }
        self.put_escrow(escrow_id, e);
        assert(self@.escrows =~= s0.escrows.insert(escrow_id, e0.with_deadline(k as int, at)));
        Ok(())
    }
}

} // verus!
