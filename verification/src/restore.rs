//! Putting stored records back, with their soundness tested.
//!
//! Every call on [`EscrowContract`] takes a sound state. A caller that keeps the
//! records elsewhere between calls starts from [`EscrowContract::new`] and hands
//! back, one by one, the records that a call will touch. Fields that are sound
//! whatever they hold can be set directly.

use crate::lifecycle::lemma_amount_sum_bounds;
use crate::params::{
    juror_params_ok, MAX_ADDITIONAL_EVIDENCE, MAX_ARBITRATION_FEE_BPS, MAX_FEE_BPS, MAX_MILESTONES,
    MAX_SLASH_BPS, MAX_STRING_LENGTH,
};
use crate::state::{amount_sum, contains, EscrowContract, State};
use crate::types::{
    Address, Dispute, Escrow, EscrowModel, FeeConfig, JurorParams, JurorStakeInfo,
};
use vstd::prelude::*;

verus! {

/// Whether no address occurs in `list` twice.
fn distinct(list: &Vec<Address>) -> (b: bool)
    ensures
        b == list@.no_duplicates(),
{
    let mut i: usize = 0;
    while i < list.len()
        invariant
            i <= list.len(),
            forall|x: int, y: int| 0 <= x < y < i ==> list@[x] != list@[y],
        decreases list.len() - i,
    {
        let mut j: usize = 0;
        while j < i
            invariant
                j <= i < list.len(),
                forall|x: int| 0 <= x < j ==> list@[x] != list@[i as int],
            decreases i - j,
        {
            if list[j] == list[i] {
                return false;
            }
            j += 1;
        }
        i += 1;
    }
    true
}

impl Escrow {
    /// Whether the terms are sound.
    pub fn is_sound(&self) -> (b: bool)
        ensures
            b == self@.wf(),
    {
        let n: usize = self.milestones.len();
        if self.renter == self.host || n < 1 || n > MAX_MILESTONES as usize {
            return false;
        }
        let ghost ms = self@.milestones;
        let mut total: i128 = 0;
        let mut i: usize = 0;
        while i < n
            invariant
                n == self.milestones.len() == ms.len(),
                n <= MAX_MILESTONES,
                ms == self@.milestones,
                i <= n,
                total == amount_sum(ms.take(i as int)),
                total >= 0,
                forall|x: int, y: int|
                    0 <= x <= y < i ==> (#[trigger] ms[x]).auto_release_offset <= (
                    #[trigger] ms[y]).auto_release_offset,
                forall|x: int|
                    0 <= x < i ==> (#[trigger] ms[x]).amount > 0 && ms[x].description.len()
                        <= MAX_STRING_LENGTH,
            decreases n - i,
        {
            assert(ms[i as int] == self.milestones@[i as int]@);
            assert(ms.take(i + 1).drop_last() =~= ms.take(i as int));
            let m = &self.milestones[i];
            if m.amount <= 0 || m.description.len() > MAX_STRING_LENGTH as usize {
                return false;
            }
            if i > 0 && m.auto_release_offset < self.milestones[i - 1].auto_release_offset {
                assert(ms[i - 1] == self.milestones@[i - 1]@);
                return false;
            }
            if i > 0 {
                assert(ms[i - 1] == self.milestones@[i - 1]@);
            }
            match total.checked_add(m.amount) {
                Some(t) => {
                    total = t;
                },
                None => {
                    proof {
                        lemma_too_much(self@, i as int);
                    }
                    return false;
                },
            }
            i += 1;
        }
        assert(ms.take(i as int) =~= ms);
        self.total_amount == total
    }
}

/// Where a prefix of the amounts is out of range, the escrow is not sound.
proof fn lemma_too_much(e: EscrowModel, i: int)
    requires
        0 <= i < e.milestones.len(),
        amount_sum(e.milestones.take(i + 1)) > i128::MAX,
    ensures
        !e.wf(),
{
    if e.wf() {
        lemma_amount_sum_bounds(e.milestones, i + 1);
    }
}

impl Dispute {
    /// Whether jury, votes and rates are sound.
    pub fn is_sound(&self) -> (b: bool)
        ensures
            b == self@.wf(),
    {
        if self.jurors.len() == 0 || !distinct(&self.jurors) || !distinct(&self.votes_for_renter)
            || !distinct(&self.votes_for_host) {
            return false;
        }
        if self.slash_bps > MAX_SLASH_BPS || self.arbitration_fee_bps > MAX_ARBITRATION_FEE_BPS
            || self.additional_evidence.len() > MAX_ADDITIONAL_EVIDENCE as usize {
            return false;
        }
        let ghost d = self@;
        let mut i: usize = 0;
        while i < self.votes_for_renter.len()
            invariant
                d == self@,
                i <= self.votes_for_renter.len(),
                forall|x: int|
                    0 <= x < i ==> d.jurors.contains(#[trigger] d.votes_for_renter[x])
                        && !d.votes_for_host.contains(d.votes_for_renter[x]),
            decreases self.votes_for_renter.len() - i,
        {
            let a: Address = self.votes_for_renter[i];
            if !contains(&self.jurors, a) || contains(&self.votes_for_host, a) {
                assert(d.votes_for_renter.contains(a));
                assert(!d.wf());
                return false;
            }
            i += 1;
        }
        let mut j: usize = 0;
        while j < self.votes_for_host.len()
            invariant
                d == self@,
                j <= self.votes_for_host.len(),
                forall|x: int|
                    0 <= x < j ==> d.jurors.contains(#[trigger] d.votes_for_host[x]),
            decreases self.votes_for_host.len() - j,
        {
            let a: Address = self.votes_for_host[j];
            if !contains(&self.jurors, a) {
                assert(d.votes_for_host.contains(a));
                assert(!d.wf());
                return false;
            }
            j += 1;
        }
        assert forall|a: Address|
            #![trigger d.votes_for_renter.contains(a)]
            #![trigger d.votes_for_host.contains(a)]
            {
                &&& d.has_voted(a) ==> d.jurors.contains(a)
                &&& !(d.votes_for_renter.contains(a) && d.votes_for_host.contains(a))
            } by {
            if d.votes_for_renter.contains(a) {
                let x = choose|x: int|
                    0 <= x < d.votes_for_renter.len() && d.votes_for_renter[x] == a;
                assert(d.jurors.contains(d.votes_for_renter[x]));
            } else if d.votes_for_host.contains(a) {
                let x = choose|x: int| 0 <= x < d.votes_for_host.len() && d.votes_for_host[x] == a;
                assert(d.jurors.contains(d.votes_for_host[x]));
            }
        }
        true
    }
}

impl EscrowContract {
    /// Puts an escrow back under its ID, unless its terms are not sound.
    pub fn restore_escrow(&mut self, e: Escrow) -> (ok: bool)
        requires
            old(self)@.wf(),
        ensures
            ok == e@.wf(),
            final(self)@ == if ok {
                old(self)@.with_escrow(e.id, e@)
            } else {
                old(self)@
            },
            final(self)@.wf(),
    {
        let ok: bool = e.is_sound();
        if ok {
            let id: u32 = e.id;
            self.put_escrow(id, e);
        }
        ok
    }

    /// Puts a dispute back under its escrow and milestone, unless it is not
    /// sound.
    pub fn restore_dispute(&mut self, d: Dispute) -> (ok: bool)
        requires
            old(self)@.wf(),
        ensures
            ok == d@.wf(),
            final(self)@ == if ok {
                old(self)@.with_dispute((d.escrow_id, d.milestone_index), d@)
            } else {
                old(self)@
            },
            final(self)@.wf(),
    {
        let ok: bool = d.is_sound();
        if ok {
            let k: (u32, u32) = (d.escrow_id, d.milestone_index);
            self.put_dispute(k, d);
        }
        ok
    }

    /// Puts a juror's stake back, unless it is not positive.
    pub fn restore_stake(&mut self, juror: Address, info: JurorStakeInfo) -> (ok: bool)
        requires
            old(self)@.wf(),
        ensures
            ok == (info.amount > 0),
            final(self)@ == if ok {
                State { juror_stakes: old(self)@.juror_stakes.insert(juror, info), ..old(self)@ }
            } else {
                old(self)@
            },
            final(self)@.wf(),
    {
        if info.amount > 0 {
            self.juror_stakes.insert(juror, info);
            true
        } else {
            false
        }
    }

    /// Puts the juror pool back, unless someone is in it twice.
    pub fn restore_pool(&mut self, pool: Vec<Address>) -> (ok: bool)
        requires
            old(self)@.wf(),
        ensures
            ok == pool@.no_duplicates(),
            final(self)@ == if ok {
                State { juror_pool: pool@, ..old(self)@ }
            } else {
                old(self)@
            },
            final(self)@.wf(),
    {
        let ok: bool = distinct(&pool);
        if ok {
            self.juror_pool = pool;
        }
        ok
    }

    /// Puts the juror requirements back, unless they are out of bounds.
    pub fn restore_juror_params(&mut self, params: JurorParams) -> (ok: bool)
        requires
            old(self)@.wf(),
        ensures
            ok == juror_params_ok(params),
            final(self)@ == if ok {
                State { juror_params: params, ..old(self)@ }
            } else {
                old(self)@
            },
            final(self)@.wf(),
    {
        let ok: bool = params.min_stake > 0 && params.jury_size % 2 == 1 && params.slash_bps
            <= MAX_SLASH_BPS && params.arbitration_fee_bps <= MAX_ARBITRATION_FEE_BPS;
        if ok {
            self.juror_params = params;
        }
        ok
    }

    /// Puts the protocol fee back, unless it is above its ceiling.
    pub fn restore_fee_config(&mut self, config: FeeConfig) -> (ok: bool)
        requires
            old(self)@.wf(),
        ensures
            ok == (config.bps <= MAX_FEE_BPS),
            final(self)@ == if ok {
                State { fee_config: Some(config), ..old(self)@ }
            } else {
                old(self)@
            },
            final(self)@.wf(),
    {
        if config.bps <= MAX_FEE_BPS {
            self.fee_config = Some(config);
            true
        } else {
            false
        }
    }
}

} // verus!
