//! The juror pool: stakes, assignments and the drawing of a jury.

use crate::errors::{Error, Failure};
use crate::state::{contains, lookup, refused, EscrowContract, State};
use crate::types::{Address, Effect, Event, JurorStakeInfo};
use vstd::prelude::*;

verus! {

/// Whether an address is neither `renter` nor `host`.
pub open spec fn neutral(renter: Address, host: Address) -> spec_fn(Address) -> bool {
    |a: Address| a != renter && a != host
}

/// The jurors of `pool` who are neither party, in pool order.
pub open spec fn eligible(pool: Seq<Address>, renter: Address, host: Address) -> Seq<Address> {
    pool.filter(neutral(renter, host))
}

/// The jury of at most `size` members drawn from `candidates`: consecutive
/// members, wrapping around, from a starting point that rotates with the
/// escrow ID.
pub open spec fn draw(candidates: Seq<Address>, size: u32, escrow_id: u32) -> Seq<Address> {
    let n = candidates.len();
    Seq::new(
        if size < n {
            size as nat
        } else {
            n
        },
        |i: int| candidates[(escrow_id as int % n as int + i) % n as int],
    )
}

/// The assignment counts once each of `jurors` has one more dispute.
pub open spec fn assigned(counts: Map<Address, u32>, jurors: Seq<Address>) -> Map<Address, u32> {
    Map::new(
        |a: Address| counts.contains_key(a) || jurors.contains(a),
        |a: Address|
            if jurors.contains(a) {
                (lookup(counts, a, 0) + 1) as u32
            } else {
                counts[a]
            },
    )
}

/// The assignment counts once each of `jurors` has one dispute less.
pub open spec fn unassigned(counts: Map<Address, u32>, jurors: Seq<Address>) -> Map<Address, u32> {
    Map::new(
        |a: Address| counts.contains_key(a) || jurors.contains(a),
        |a: Address|
            if jurors.contains(a) {
                if lookup(counts, a, 0) > 0 {
                    (lookup(counts, a, 0) - 1) as u32
                } else {
                    0
                }
            } else {
                counts[a]
            },
    )
}

/// `pool` without `who`.
pub open spec fn without(pool: Seq<Address>, who: Address) -> Seq<Address> {
    if pool.contains(who) {
        pool.remove(pool.index_of(who))
    } else {
        pool
    }
}

impl State {
    /// The jury for a dispute on escrow `id`.
    pub open spec fn jury(self, id: u32, renter: Address, host: Address) -> Seq<Address> {
        draw(eligible(self.juror_pool, renter, host), self.juror_params.jury_size, id)
    }

    /// Why `juror` cannot stake `stake` of `asset`.
    pub open spec fn register_refusal(self, juror: Address, asset: Address, stake: i128) -> Option<
        Failure,
    > {
        if stake < self.juror_params.min_stake {
            refused(Error::InsufficientStake)
        } else if self.reputation_of(juror) < self.juror_params.min_reputation {
            refused(Error::ReputationTooLow)
        } else if !self.juror_stakes.contains_key(juror) {
            None
        } else if self.juror_stakes[juror].asset != asset {
            refused(Error::AssetMismatch)
        } else if self.juror_stakes[juror].amount + stake > i128::MAX {
            Some(Failure::Aborted)
        } else {
            None
        }
    }

    /// `juror` stakes `stake` of `asset`, on top of what is already staked.
    pub open spec fn register_juror(self, juror: Address, asset: Address, stake: i128) -> (
        State,
        Result<(), Failure>,
    ) {
        let s = self.demand(juror);
        match s.register_refusal(juror, asset, stake) {
            Some(f) => (s, Err(f)),
            None => {
                let before = if s.juror_stakes.contains_key(juror) {
                    s.juror_stakes[juror].amount as int
                } else {
                    0
                };
                let t = State {
                    juror_stakes: s.juror_stakes.insert(
                        juror,
                        JurorStakeInfo { asset, amount: (before + stake) as i128 },
                    ),
                    juror_pool: if s.juror_pool.contains(juror) {
                        s.juror_pool
                    } else {
                        s.juror_pool.push(juror)
                    },
                    ..s
                };
                (
                    t.emit(Effect::Collect { asset, from: juror, amount: stake }).publish(
                        Event::JurorJoined { juror, stake },
                    ),
                    Ok(()),
                )
            },
        }
    }

    /// `juror` takes the full stake back and leaves the pool.
    pub open spec fn withdraw_juror_stake(self, juror: Address) -> (State, Result<(), Failure>) {
        let s = self.demand(juror);
        if s.active_count(juror) > 0 {
            (s, Err(Failure::Refused(Error::JurorHasActiveDispute)))
        } else if !s.juror_stakes.contains_key(juror) {
            (s, Err(Failure::Refused(Error::NotAJuror)))
        } else {
            let info = s.juror_stakes[juror];
            let t = State {
                juror_stakes: s.juror_stakes.remove(juror),
                juror_pool: without(s.juror_pool, juror),
                ..s
            };
            (
                t.emit(Effect::Pay { asset: info.asset, to: juror, amount: info.amount }).publish(
                    Event::JurorLeft { juror, amount: info.amount },
                ),
                Ok(()),
            )
        }
    }
}

/// Filtering keeps a list free of repetition.
pub proof fn lemma_filter_distinct(list: Seq<Address>, p: spec_fn(Address) -> bool)
    requires
        list.no_duplicates(),
    ensures
        list.filter(p).no_duplicates(),
    decreases list.len(),
{
    reveal(Seq::filter);
    if list.len() > 0 {
        let rest = list.drop_last();
        lemma_filter_distinct(rest, p);
        assert forall|i: int| 0 <= i < rest.filter(p).len() implies rest.filter(p)[i]
            != list.last() by {
            assert(rest.filter(p).contains(rest.filter(p)[i]));
            rest.lemma_filter_contains_rev(p, rest.filter(p)[i]);
        }
    }
}

/// A drawn jury has no member twice, and none that is not a candidate.
pub proof fn lemma_draw_distinct(candidates: Seq<Address>, size: u32, escrow_id: u32)
    requires
        candidates.no_duplicates(),
        candidates.len() > 0,
    ensures
        draw(candidates, size, escrow_id).no_duplicates(),
        forall|a: Address| #[trigger]
            draw(candidates, size, escrow_id).contains(a) ==> candidates.contains(a),
{
    let n = candidates.len() as int;
    let start = escrow_id as int % n;
    let jury = draw(candidates, size, escrow_id);
    assert forall|i: int, j: int| 0 <= i < jury.len() && 0 <= j < jury.len() && i != j implies jury[i]
        != jury[j] by {
        lemma_wrap(start + i, n);
        lemma_wrap(start + j, n);
    }
    assert forall|a: Address| #[trigger] jury.contains(a) implies candidates.contains(a) by {
        let i = choose|i: int| 0 <= i < jury.len() && jury[i] == a;
        lemma_wrap(start + i, n);
        assert(candidates[(start + i) % n] == a);
    }
}

/// Wrapping around once.
proof fn lemma_wrap(x: int, n: int)
    requires
        0 < n,
        0 <= x < 2 * n,
    ensures
        x % n == if x < n {
            x
        } else {
            x - n
        },
{
    if x < n {
        vstd::arithmetic::div_mod::lemma_small_mod(x as nat, n as nat);
    } else {
        vstd::arithmetic::div_mod::lemma_small_mod((x - n) as nat, n as nat);
        vstd::arithmetic::div_mod::lemma_mod_add_multiples_vanish(x - n, n);
    }
}

/// What a list holds once one more element is pushed.
pub proof fn lemma_push_contains<A>(list: Seq<A>, x: A, a: A)
    ensures
        list.push(x).contains(a) <==> list.contains(a) || a == x,
{
    if list.contains(a) {
        let i = choose|i: int| 0 <= i < list.len() && list[i] == a;
        assert(list.push(x)[i] == a);
    }
    if a == x {
        assert(list.push(x)[list.len() as int] == a);
    }
}

/// A jury drawn from a pool without repetition has no member twice and neither
/// party.
pub proof fn lemma_jury_sound(s: State, id: u32, renter: Address, host: Address)
    requires
        s.juror_pool.no_duplicates(),
        eligible(s.juror_pool, renter, host).len() > 0,
    ensures
        s.jury(id, renter, host).no_duplicates(),
        forall|a: Address| #[trigger]
            s.jury(id, renter, host).contains(a) ==> s.juror_pool.contains(a) && a != renter && a
                != host,
{
    let p = neutral(renter, host);
    let candidates = eligible(s.juror_pool, renter, host);
    lemma_filter_distinct(s.juror_pool, p);
    lemma_draw_distinct(candidates, s.juror_params.jury_size, id);
    assert forall|a: Address| #[trigger] s.jury(id, renter, host).contains(
        a,
    ) implies s.juror_pool.contains(a) && a != renter && a != host by {
        assert(candidates.contains(a));
        s.juror_pool.lemma_filter_contains_rev(p, a);
        let i = choose|i: int| 0 <= i < candidates.len() && candidates[i] == a;
        s.juror_pool.lemma_filter_pred(p, i);
    }
}

impl EscrowContract {
    /// Draws a jury from the pool, leaving out the two parties to the escrow; a
    /// renter or host who also registered as a juror must not sit on their own
    /// dispute. Empty where nobody is eligible.
    pub(crate) fn select_jurors(&self, seed_escrow_id: u32, renter: Address, host: Address) -> (r: Vec<
        Address,
    >)
        requires
            self@.wf(),
        ensures
            eligible(self@.juror_pool, renter, host).len() == 0 ==> r@.len() == 0,
            eligible(self@.juror_pool, renter, host).len() > 0 ==> r@ == self@.jury(
                seed_escrow_id,
                renter,
                host,
            ) && r@.len() > 0,
    {
        let mut candidates: Vec<Address> = Vec::new();
        let mut i: usize = 0;
        let ghost p = neutral(renter, host);
        while i < self.juror_pool.len()
            invariant
                i <= self.juror_pool.len(),
                p == neutral(renter, host),
                candidates@ == self.juror_pool@.take(i as int).filter(p),
            decreases self.juror_pool.len() - i,
        {
            let a: Address = self.juror_pool[i];
            assert(self.juror_pool@.take(i + 1) =~= self.juror_pool@.take(i as int).push(a));
            proof {
                self.juror_pool@.take(i as int).lemma_filter_push(a, p);
            }
            if a != renter && a != host {
                candidates.push(a);
            }
            i += 1;
        }
        assert(self.juror_pool@.take(i as int) =~= self.juror_pool@);
        assert(candidates@ == eligible(self@.juror_pool, renter, host));

        let mut selected: Vec<Address> = Vec::new();
        if candidates.len() == 0 {
            return selected;
        }
        let n: u128 = candidates.len() as u128;
        let size: u128 = self.juror_params.jury_size as u128;
        let take: u128 = if size < n {
            size
        } else {
            n
        };
        let start: u128 = seed_escrow_id as u128 % n;
        let ghost jury = self@.jury(seed_escrow_id, renter, host);
        let mut k: u128 = 0;
        while k < take
            invariant
                k <= take <= n,
                0 < n,
                n == candidates@.len(),
                n <= usize::MAX,
                start < n,
                start == seed_escrow_id as int % n as int,
                candidates@ == eligible(self@.juror_pool, renter, host),
                jury == self@.jury(seed_escrow_id, renter, host),
                jury.len() == take,
                selected@ =~= jury.take(k as int),
            decreases take - k,
        {
            let at: u128 = (start + k) % n;
            assert(jury[k as int] == candidates@[at as int]);
            selected.push(candidates[at as usize]);
            k += 1;
        }
        assert(jury.take(take as int) =~= jury);
        selected
    }

    /// How many unresolved disputes `juror` is currently assigned to.
    pub fn get_active_dispute_count(&self, juror: Address) -> (n: u32)
        ensures
            n == self@.active_count(juror),
    {
        match self.active_disputes.get(&juror) {
            Some(n) => *n,
            None => 0,
        }
    }

    /// Whether every one of `jurors` can be assigned to one more dispute.
    pub(crate) fn can_assign(&self, jurors: &Vec<Address>) -> (b: bool)
        ensures
            b == forall|i: int|
                0 <= i < jurors@.len() ==> self@.active_count(#[trigger] jurors@[i]) < u32::MAX,
    {
        let mut i: usize = 0;
        while i < jurors.len()
            invariant
                i <= jurors.len(),
                forall|j: int|
                    0 <= j < i ==> self@.active_count(#[trigger] jurors@[j]) < u32::MAX,
            decreases jurors.len() - i,
        {
            if self.get_active_dispute_count(jurors[i]) == u32::MAX {
                return false;
            }
            i += 1;
        }
        true
    }

    /// Assigns each of `jurors` to one more dispute.
    pub(crate) fn inc_active_dispute_counts(&mut self, jurors: &Vec<Address>)
        requires
            jurors@.no_duplicates(),
            forall|i: int|
                0 <= i < jurors@.len() ==> old(self)@.active_count(#[trigger] jurors@[i]) < u32::MAX,
        ensures
            final(self)@ == (State {
                active_disputes: assigned(old(self)@.active_disputes, jurors@),
                ..old(self)@
            }),
    {
        let ghost s0 = self@;
        let mut i: usize = 0;
        assert(self@.active_disputes =~= assigned(s0.active_disputes, jurors@.take(0)));
        while i < jurors.len()
            invariant
                i <= jurors.len(),
                jurors@.no_duplicates(),
                forall|j: int|
                    0 <= j < jurors@.len() ==> s0.active_count(#[trigger] jurors@[j]) < u32::MAX,
                self@ == (State {
                    active_disputes: assigned(s0.active_disputes, jurors@.take(i as int)),
                    ..s0
                }),
            decreases jurors.len() - i,
        {
            let juror: Address = jurors[i];
            let ghost before = jurors@.take(i as int);
            let ghost after = jurors@.take(i + 1);
            proof {
                assert(after =~= before.push(juror));
                assert(!before.contains(juror));
                assert forall|a: Address| #[trigger] after.contains(a) <==> before.contains(a) || a
                    == juror by {
                    lemma_push_contains(before, juror, a);
                }
                assert(s0.active_count(jurors@[i as int]) < u32::MAX);
            }
            let count: u32 = self.get_active_dispute_count(juror);
            self.active_disputes.insert(juror, count + 1);
            assert(self@.active_disputes =~= assigned(s0.active_disputes, after));
            i += 1;
        }
        assert(jurors@.take(i as int) =~= jurors@);
    }

    /// Relieves each of `jurors` of one dispute.
    pub(crate) fn dec_active_dispute_counts(&mut self, jurors: &Vec<Address>)
        requires
            jurors@.no_duplicates(),
        ensures
            final(self)@ == (State {
                active_disputes: unassigned(old(self)@.active_disputes, jurors@),
                ..old(self)@
            }),
    {
        let ghost s0 = self@;
        let mut i: usize = 0;
        assert(self@.active_disputes =~= unassigned(s0.active_disputes, jurors@.take(0)));
        while i < jurors.len()
            invariant
                i <= jurors.len(),
                jurors@.no_duplicates(),
                self@ == (State {
                    active_disputes: unassigned(s0.active_disputes, jurors@.take(i as int)),
                    ..s0
                }),
            decreases jurors.len() - i,
        {
            let juror: Address = jurors[i];
            let ghost before = jurors@.take(i as int);
            let ghost after = jurors@.take(i + 1);
            proof {
                assert(after =~= before.push(juror));
                assert(!before.contains(juror));
                assert forall|a: Address| #[trigger] after.contains(a) <==> before.contains(a) || a
                    == juror by {
                    lemma_push_contains(before, juror, a);
                }
            }
            let count: u32 = self.get_active_dispute_count(juror);
            self.active_disputes.insert(juror, count.saturating_sub(1));
            assert(self@.active_disputes =~= unassigned(s0.active_disputes, after));
            i += 1;
        }
        assert(jurors@.take(i as int) =~= jurors@);
    }

    /// Register as a juror by staking at least the configured minimum of
    /// `asset`. Calling this again with more of the same asset tops up the
    /// existing stake; switching assets is rejected.
    pub fn register_juror(&mut self, juror: Address, asset: Address, stake: i128) -> (r: Result<
        (),
        Failure,
    >)
        requires
            old(self)@.wf(),
        ensures
            (final(self)@, r) == old(self)@.register_juror(juror, asset, stake),
            final(self)@.wf(),
    {
        self.demand(juror);
        if stake < self.juror_params.min_stake {
            return Err(Failure::Refused(Error::InsufficientStake));
        }
        if self.get_reputation(juror) < self.juror_params.min_reputation {
            return Err(Failure::Refused(Error::ReputationTooLow));
        }
        let amount: i128 = match self.juror_stakes.get(&juror) {
            Some(info) => {
                if info.asset != asset {
                    return Err(Failure::Refused(Error::AssetMismatch));
                }
                match info.amount.checked_add(stake) {
                    Some(sum) => sum,
                    None => {
                        return Err(Failure::Aborted);
                    },
                }
            },
            None => stake,
        };
        self.juror_stakes.insert(juror, JurorStakeInfo { asset, amount });
        if !contains(&self.juror_pool, juror) {
            self.juror_pool.push(juror);
        }
        self.emit(Effect::Collect { asset, from: juror, amount: stake });
        self.publish(Event::JurorJoined { juror, stake });
        Ok(())
    }

    /// Withdraw the caller's full juror stake and leave the pool. Blocked while
    /// assigned to any dispute that has not been resolved yet.
    pub fn withdraw_juror_stake(&mut self, juror: Address) -> (r: Result<(), Failure>)
        requires
            old(self)@.wf(),
        ensures
            (final(self)@, r) == old(self)@.withdraw_juror_stake(juror),
            final(self)@.wf(),
    {
        self.demand(juror);
        let ghost s = self@;
        if self.get_active_dispute_count(juror) > 0 {
            return Err(Failure::Refused(Error::JurorHasActiveDispute));
        }
        let info: JurorStakeInfo = match self.juror_stakes.get(&juror) {
            Some(info) => *info,
            None => {
                return Err(Failure::Refused(Error::NotAJuror));
            },
        };
        self.juror_stakes.remove(&juror);
        let mut i: usize = 0;
        while i < self.juror_pool.len() && self.juror_pool[i] != juror
            invariant
                i <= self.juror_pool.len(),
                forall|j: int| 0 <= j < i ==> self.juror_pool@[j] != juror,
            decreases self.juror_pool.len() - i,
        {
            i += 1;
        }
        if i < self.juror_pool.len() {
            assert(s.juror_pool.contains(juror));
            assert(s.juror_pool.index_of(juror) == i);
            self.juror_pool.remove(i);
        }
        assert(self@.juror_pool =~= without(s.juror_pool, juror));
        self.emit(Effect::Pay { asset: info.asset, to: juror, amount: info.amount });
        self.publish(Event::JurorLeft { juror, amount: info.amount });
        Ok(())
    }

    /// The stake of `juror`, where there is one.
    pub fn get_juror_stake(&self, juror: Address) -> (r: Option<JurorStakeInfo>)
        ensures
            match r {
                Some(info) => self@.juror_stakes.contains_key(juror) && info
                    == self@.juror_stakes[juror],
                None => !self@.juror_stakes.contains_key(juror),
            },
    {
        match self.juror_stakes.get(&juror) {
            Some(info) => Some(*info),
            None => None,
        }
    }
}

} // verus!
