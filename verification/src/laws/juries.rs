//! Who sits on a jury, and when a juror can leave.

use crate::errors::{Error, Failure};
use crate::jurors::{eligible, lemma_jury_sound, lemma_push_contains};
use crate::laws::consistency::lemma_without;
use crate::state::State;
use crate::types::{Address, Effect};
use vstd::prelude::*;

verus! {

/// A dispute gets a jury of the configured size, or of all who are eligible
/// where those are fewer. Every member has a stake, nobody sits on it twice,
/// and neither party sits on it.
pub proof fn law_jury(
    s: State,
    caller: Address,
    id: u32,
    i: u32,
    evidence: Seq<u8>,
    now: u64,
    a: Address,
)
    requires
        s.wf(),
        s.consistent(),
        s.raise_dispute(caller, id, i, evidence, now).1 is Ok,
    ensures
        ({
            let e = s.escrows[id];
            let n = eligible(s.juror_pool, e.renter, e.host).len();
            let size = s.juror_params.jury_size;
            let jury = s.raise_dispute(caller, id, i, evidence, now).0.disputes[(id, i)].jurors;
            &&& jury.len() == if size < n {
                size as nat
            } else {
                n
            }
            &&& jury.len() > 0
            &&& jury.no_duplicates()
            &&& jury.contains(a) ==> s.juror_stakes.contains_key(a) && !e.is_party(a)
        }),
{
    let e = s.escrows[id];
    lemma_jury_sound(s, id, e.renter, e.host);
    assert(s.juror_stakes.contains_key(a) <==> s.juror_pool.contains(a));
}

/// The seats are handed out from a starting point that moves on with the escrow
/// ID: consecutive escrows start with consecutive candidates.
pub proof fn law_jury_rotates(s: State, id: u32, renter: Address, host: Address)
    requires
        s.wf(),
        eligible(s.juror_pool, renter, host).len() > 0,
    ensures
        ({
            let candidates = eligible(s.juror_pool, renter, host);
            s.jury(id, renter, host)[0] == candidates[id as int % candidates.len() as int]
        }),
{
    let n = eligible(s.juror_pool, renter, host).len() as int;
    vstd::arithmetic::div_mod::lemma_mod_twice(id as int, n);
}

/// A juror cannot leave while on the jury of an open dispute.
pub proof fn law_assigned_jurors_stay(s: State, juror: Address, k: (u32, u32))
    requires
        s.consistent(),
        s.disputes.contains_key(k),
        !s.disputes[k].resolved,
        s.disputes[k].jurors.contains(juror),
    ensures
        s.withdraw_juror_stake(juror).1 == Err::<(), Failure>(
            Failure::Refused(Error::JurorHasActiveDispute),
        ),
        s.juror_stakes.contains_key(juror),
{
    assert(s.open_disputes(juror).contains(k));
    assert(s.active_count(juror) == s.open_disputes(juror).len());
    assert(s.dispute_ok(k));
}

/// A juror who is on no open jury takes the full stake back and leaves the
/// pool.
pub proof fn law_free_jurors_leave(s: State, juror: Address)
    requires
        s.wf(),
        s.consistent(),
        s.juror_stakes.contains_key(juror),
        forall|k: (u32, u32)| #[trigger]
            s.disputes.contains_key(k) && !s.disputes[k].resolved
                ==> !s.disputes[k].jurors.contains(juror),
    ensures
        ({
            let (t, r) = s.withdraw_juror_stake(juror);
            let info = s.juror_stakes[juror];
            &&& r is Ok
            &&& t.effects.contains(
                Effect::Pay { asset: info.asset, to: juror, amount: info.amount },
            )
            &&& !t.juror_stakes.contains_key(juror)
            &&& !t.juror_pool.contains(juror)
        }),
{
    assert(s.open_disputes(juror) =~= Set::empty());
    assert(s.active_count(juror) == s.open_disputes(juror).len());
    let (t, r) = s.withdraw_juror_stake(juror);
    let info = s.juror_stakes[juror];
    assert(t.effects[t.effects.len() - 2] == Effect::Pay {
        asset: info.asset,
        to: juror,
        amount: info.amount,
    });
    lemma_without(s.juror_pool, juror, juror);
}

/// Whoever registers and then withdraws gets back exactly what was staked, and
/// leaves the pool as it was.
pub proof fn law_stake_round_trip(s: State, juror: Address, asset: Address, stake: i128)
    requires
        s.wf(),
        s.consistent(),
        !s.juror_stakes.contains_key(juror),
        s.register_juror(juror, asset, stake).1 is Ok,
    ensures
        ({
            let t = s.register_juror(juror, asset, stake).0;
            let (u, r) = t.withdraw_juror_stake(juror);
            &&& r is Ok
            &&& u == State { effects: u.effects, ..s }
            &&& u.effects.contains(Effect::Collect { asset, from: juror, amount: stake })
            &&& u.effects.contains(Effect::Pay { asset, to: juror, amount: stake })
        }),
{
    let t = s.register_juror(juror, asset, stake).0;
    let (u, r) = t.withdraw_juror_stake(juror);
    assert(s.juror_stakes.contains_key(juror) <==> s.juror_pool.contains(juror));
    assert forall|k: (u32, u32)| !s.open_disputes(juror).contains(k) by {
        if s.disputes.contains_key(k) {
            assert(s.dispute_ok(k));
        }
    }
    assert(s.open_disputes(juror) =~= Set::empty());
    assert(s.active_count(juror) == s.open_disputes(juror).len());
    lemma_push_contains(s.juror_pool, juror, juror);
    let p = t.juror_pool.index_of(juror);
    assert(t.juror_pool[p] == juror);
    assert(p == s.juror_pool.len());
    assert(u.juror_pool =~= s.juror_pool);
    assert(u.juror_stakes =~= s.juror_stakes);
    let n = s.effects.len() as int;
    assert(u.effects[n + 1] == Effect::Collect { asset, from: juror, amount: stake });
    assert(u.effects[n + 4] == Effect::Pay { asset, to: juror, amount: stake });
}

} // verus!
