//! What each call on an unfunded escrow asks for and what it leaves behind.

use crate::errors::{Error, Failure};
use crate::laws::values::{aborts, refuses};
use crate::lifecycle::{
    lemma_amount_sum_push, lemma_remove_wf, lemma_terms_accepted, milestones_of, new_milestone, term_refusal,
    terms_refusal, terms_view, Term,
};
use crate::state::{amount_sum, State};
use crate::types::{Address, Effect, EscrowModel, EscrowStatus, Event, MilestoneModel};
use vstd::prelude::*;

verus! {

/// What `terms` ask for together.
pub open spec fn asked(terms: Seq<(Seq<u8>, i128, u64)>) -> int
    decreases terms.len(),
{
    if terms.len() == 0 {
        0
    } else {
        asked(terms.drop_last()) + terms.last().1
    }
}

/// Each term adds its amount to what is asked for.
pub proof fn law_asked(terms: Seq<(Seq<u8>, i128, u64)>, t: (Seq<u8>, i128, u64))
    ensures
        asked(Seq::empty()) == 0,
        asked(terms.push(t)) == asked(terms) + t.1,
{
    assert(terms.push(t).drop_last() =~= terms);
}

/// What terms ask for is what their milestones amount to.
proof fn lemma_asked(terms: Seq<(Seq<u8>, i128, u64)>)
    ensures
        asked(terms) == amount_sum(milestones_of(terms)),
    decreases terms.len(),
{
    if terms.len() > 0 {
        let rest = terms.drop_last();
        let t = terms.last();
        lemma_asked(rest);
        assert(milestones_of(terms) =~= milestones_of(rest).push(new_milestone(t.0, t.1, t.2)));
        lemma_amount_sum_push(milestones_of(rest), new_milestone(t.0, t.1, t.2));
    }
}

/// Positive terms ask for no less than any of their beginnings.
proof fn lemma_asked_prefix(terms: Seq<(Seq<u8>, i128, u64)>, k: int)
    requires
        0 <= k <= terms.len(),
        forall|j: int| 0 <= j < terms.len() ==> (#[trigger] terms[j]).1 > 0,
    ensures
        0 <= asked(terms.take(k)) <= asked(terms),
    decreases terms.len(),
{
    if terms.len() > 0 {
        let rest = terms.drop_last();
        assert forall|j: int| 0 <= j < rest.len() implies (#[trigger] rest[j]).1 > 0 by {
            assert(rest[j] == terms[j]);
        }
        assert(terms[terms.len() - 1].1 > 0);
        if k == terms.len() {
            lemma_asked_prefix(rest, rest.len() as int);
            assert(rest.take(rest.len() as int) =~= rest);
            assert(terms.take(k) =~= terms);
        } else {
            lemma_asked_prefix(rest, k);
            assert(rest.take(k) =~= terms.take(k));
        }
    }
}

/// Terms are not refused where none of them is.
proof fn lemma_none_refused(terms: Seq<(Seq<u8>, i128, u64)>, n: nat)
    requires
        forall|k: int| 0 <= k < n ==> #[trigger] term_refusal(terms, k) is None,
    ensures
        terms_refusal(terms, n) is None,
    decreases n,
{
    if n > 0 {
        lemma_none_refused(terms, (n - 1) as nat);
        assert(term_refusal(terms, n - 1) is None);
    }
}

/// What the first term that is refused is refused for stands.
proof fn lemma_first_refused(terms: Seq<(Seq<u8>, i128, u64)>, k: int, n: nat)
    requires
        0 <= k < n,
        forall|j: int| 0 <= j < k ==> #[trigger] term_refusal(terms, j) is None,
        term_refusal(terms, k) is Some,
    ensures
        terms_refusal(terms, n) == term_refusal(terms, k),
    decreases n,
{
    if n == k + 1 {
        lemma_none_refused(terms, k as nat);
    } else {
        lemma_first_refused(terms, k, (n - 1) as nat);
    }
}

/// The model of proposed terms holds their parts, in order.
pub proof fn law_terms_model(terms: Seq<Term>)
    ensures
        terms_view(terms).len() == terms.len(),
        forall|k: int|
            0 <= k < terms.len() ==> {
                &&& (#[trigger] terms_view(terms)[k]).0 == terms[k].0@
                &&& terms_view(terms)[k].1 == terms[k].1
                &&& terms_view(terms)[k].2 == terms[k].2
            },
{
}

/// A proposal goes through exactly where the contract is not paused, the
/// parties differ, there are one to fifty milestones, each with a positive
/// amount, a description of at most 512 bytes and an offset no earlier than the
/// one before, and the total and the next ID are in range.
#[verifier::spinoff_prover]
pub proof fn law_proposals_accepted(
    s: State,
    renter: Address,
    host: Address,
    asset: Address,
    terms: Seq<(Seq<u8>, i128, u64)>,
    gated: bool,
    now: u64,
)
    ensures
        ({
            let r = s.create_escrow(renter, host, asset, terms, gated, now).1;
            let acceptable = {
                &&& !s.paused
                &&& renter != host
                &&& 1 <= terms.len() <= 50
                &&& forall|k: int|
                    0 <= k < terms.len() ==> (#[trigger] terms[k]).1 >= 1 && terms[k].0.len()
                        <= 512
                &&& forall|i: int, j: int|
                    0 <= i <= j < terms.len() ==> (#[trigger] terms[i]).2 <= (
                    #[trigger] terms[j]).2
                &&& asked(terms) <= i128::MAX
            };
            &&& r is Ok <==> acceptable && s.escrow_count < u32::MAX
            &&& acceptable && s.escrow_count == u32::MAX ==> aborts(r)
            &&& refuses(r, Error::ContractPaused) <==> s.paused
            &&& refuses(r, Error::SameParty) <==> !s.paused && renter == host
            &&& refuses(r, Error::NoMilestones) <==> !s.paused && renter != host && terms.len()
                == 0
            &&& refuses(r, Error::TooManyMilestones) <==> !s.paused && renter != host
                && terms.len() > 50
        }),
{
    let r = s.create_escrow(renter, host, asset, terms, gated, now).1;
    let n = terms.len();
    lemma_terms_errors(terms, n);
    if r is Ok {
        lemma_terms_accepted(terms, n);
        assert(terms.take(n as int) =~= terms);
        lemma_asked(terms);
    }
    if {
        &&& !s.paused
        &&& renter != host
        &&& 1 <= terms.len() <= 50
        &&& forall|k: int|
            0 <= k < terms.len() ==> (#[trigger] terms[k]).1 >= 1 && terms[k].0.len() <= 512
        &&& forall|i: int, j: int|
            0 <= i <= j < terms.len() ==> (#[trigger] terms[i]).2 <= (#[trigger] terms[j]).2
        &&& asked(terms) <= i128::MAX
    } {
        assert forall|k: int| 0 <= k < n implies #[trigger] term_refusal(terms, k) is None by {
            assert(terms[k].1 >= 1);
            if k > 0 {
                assert(terms[k - 1].2 <= terms[k].2);
            }
            lemma_asked(terms.take(k + 1));
            lemma_asked_prefix(terms, k + 1);
        }
        lemma_none_refused(terms, n);
    }
}

/// Terms are refused for what they hold, not for who proposes them.
proof fn lemma_terms_errors(terms: Seq<(Seq<u8>, i128, u64)>, n: nat)
    ensures
        terms_refusal(terms, n) matches Some(f) ==> {
            &&& f != Failure::Refused(Error::ContractPaused)
            &&& f != Failure::Refused(Error::SameParty)
            &&& f != Failure::Refused(Error::NoMilestones)
            &&& f != Failure::Refused(Error::TooManyMilestones)
        },
    decreases n,
{
    if n > 0 {
        lemma_terms_errors(terms, (n - 1) as nat);
    }
}

/// A proposal is refused for its first unacceptable milestone: for its amount,
/// else its description, else its place in time, else because the amounts up to
/// it leave the range.
pub proof fn law_first_bad_milestone_counts(
    s: State,
    renter: Address,
    host: Address,
    asset: Address,
    terms: Seq<(Seq<u8>, i128, u64)>,
    gated: bool,
    now: u64,
    k: int,
)
    requires
        !s.paused,
        renter != host,
        terms.len() <= 50,
        0 <= k < terms.len(),
        forall|j: int|
            0 <= j < k ==> (#[trigger] terms[j]).1 >= 1 && terms[j].0.len() <= 512,
        forall|i: int, j: int|
            0 <= i <= j < k ==> (#[trigger] terms[i]).2 <= (#[trigger] terms[j]).2,
        asked(terms.take(k)) <= i128::MAX,
    ensures
        ({
            let r = s.create_escrow(renter, host, asset, terms, gated, now).1;
            let late = k == 0 || terms[k - 1].2 <= terms[k].2;
            &&& terms[k].1 <= 0 ==> refuses(r, Error::InvalidAmount)
            &&& terms[k].1 >= 1 && terms[k].0.len() > 512 ==> refuses(r, Error::StringTooLong)
            &&& terms[k].1 >= 1 && terms[k].0.len() <= 512 && !late ==> refuses(
                r,
                Error::NonChronologicalMilestones,
            )
            &&& terms[k].1 >= 1 && terms[k].0.len() <= 512 && late && asked(terms.take(k + 1))
                > i128::MAX ==> aborts(r)
        }),
{
    assert forall|j: int| 0 <= j < k implies #[trigger] term_refusal(terms, j) is None by {
        assert(terms[j].1 >= 1);
        if j > 0 {
            assert(terms[j - 1].2 <= terms[j].2);
        }
        let start = terms.take(k);
        assert forall|x: int| 0 <= x < start.len() implies (#[trigger] start[x]).1 > 0 by {
            assert(start[x] == terms[x]);
        }
        lemma_asked_prefix(start, j + 1);
        assert(start.take(j + 1) =~= terms.take(j + 1));
        lemma_asked(terms.take(j + 1));
    }
    lemma_asked(terms.take(k + 1));
    if term_refusal(terms, k) is Some {
        lemma_first_refused(terms, k, terms.len());
    }
}

/// A proposal that goes through is recorded under the next ID as it was made:
/// its milestones in order and pending, its total their sum, nothing funded,
/// not disputed, accepted unless the host has to accept; both parties list it
/// last. Nothing else changes, and nothing is collected or paid.
#[verifier::spinoff_prover]
pub proof fn law_proposals_recorded(
    s: State,
    renter: Address,
    host: Address,
    asset: Address,
    terms: Seq<(Seq<u8>, i128, u64)>,
    gated: bool,
    now: u64,
)
    ensures
        ({
            let (t, r) = s.create_escrow(renter, host, asset, terms, gated, now);
            let id = s.escrow_count;
            let e = t.escrows[id];
            let of_renter = if s.party_escrows.contains_key(renter) {
                s.party_escrows[renter]
            } else {
                Seq::empty()
            };
            let of_host = if s.party_escrows.contains_key(host) {
                s.party_escrows[host]
            } else {
                Seq::empty()
            };
            &&& r is Err ==> t == (State {
                effects: s.effects.push(Effect::RequireAuth { who: renter }),
                ..s
            })
            &&& r is Ok ==> {
                &&& r->Ok_0 == id
                &&& e.id == id
                &&& e.renter == renter
                &&& e.host == host
                &&& e.asset == asset
                &&& e.total_amount == asked(terms)
                &&& e.funded_amount == 0
                &&& e.status == EscrowStatus::Created
                &&& e.dispute_id is None
                &&& e.host_accepted == !gated
                &&& e.requires_host_acceptance == gated
                &&& e.created_at == now
                &&& !e.ever_disputed
                &&& e.milestones.len() == terms.len()
                &&& forall|k: int|
                    0 <= k < terms.len() ==> #[trigger] e.milestones[k] == (MilestoneModel {
                        description: terms[k].0,
                        amount: terms[k].1,
                        auto_release_offset: terms[k].2,
                        auto_release_at: 0,
                        released: false,
                        released_at: 0,
                    })
                &&& t == (State {
                    escrow_count: (id + 1) as u32,
                    escrows: s.escrows.insert(id, e),
                    party_escrows: s.party_escrows.insert(renter, of_renter.push(id)).insert(
                        host,
                        of_host.push(id),
                    ),
                    effects: s.effects + seq![
                        Effect::RequireAuth { who: renter },
                        Effect::Publish {
                            event: Event::Created {
                                id,
                                renter,
                                host,
                                total_amount: e.total_amount,
                            },
                        },
                    ],
                    ..s
                })
            }
        }),
{
    let (t, r) = s.create_escrow(renter, host, asset, terms, gated, now);
    if r is Ok {
        law_proposals_accepted(s, renter, host, asset, terms, gated, now);
        lemma_asked(terms);
        lemma_terms_accepted(terms, terms.len());
        assert(terms.take(terms.len() as int) =~= terms);
        assert(t.effects =~= s.effects + seq![
            Effect::RequireAuth { who: renter },
            Effect::Publish {
                event: Event::Created {
                    id: s.escrow_count,
                    renter,
                    host,
                    total_amount: t.escrows[s.escrow_count].total_amount,
                },
            },
        ]);
    }
}

/// The host, and nobody else, accepts or declines a proposal that is not
/// funded. Accepting changes nothing but that; declining cancels the escrow.
/// Neither moves funds.
pub proof fn law_host_answers(s: State, host: Address, id: u32)
    ensures
        ({
            let (t, r) = s.accept_escrow(host, id);
            let (u, q) = s.reject_escrow(host, id);
            let found = s.escrows.contains_key(id);
            let e = s.escrows[id];
            let signed = s.effects.push(Effect::RequireAuth { who: host });
            &&& q == r
            &&& r is Ok <==> found && e.host == host && e.status == EscrowStatus::Created
            &&& refuses(r, Error::EscrowNotFound) <==> !found
            &&& refuses(r, Error::NotAuthorized) <==> found && e.host != host
            &&& refuses(r, Error::InvalidState) <==> found && e.host == host && e.status
                != EscrowStatus::Created
            &&& r is Err ==> t == (State { effects: signed, ..s }) && u == t
            &&& r is Ok ==> {
                &&& t == (State {
                    escrows: s.escrows.insert(id, EscrowModel { host_accepted: true, ..e }),
                    effects: signed,
                    ..s
                })
                &&& u == (State {
                    escrows: s.escrows.insert(
                        id,
                        EscrowModel { status: EscrowStatus::Cancelled, ..e },
                    ),
                    effects: signed,
                    ..s
                })
            }
        }),
{
}

/// The renter appends a milestone at the end of an unfunded escrow. The other
/// milestones stay, the total grows by the amount, and a host who has to accept
/// has to do so again.
pub proof fn law_milestone_added(
    s: State,
    renter: Address,
    id: u32,
    description: Seq<u8>,
    amount: i128,
    offset: u64,
)
    requires
        s.wf(),
    ensures
        ({
            let (t, r) = s.add_milestone(renter, id, description, amount, offset);
            let found = s.escrows.contains_key(id);
            let e = s.escrows[id];
            let f = t.escrows[id];
            let n = e.milestones.len();
            let mine = found && e.renter == renter;
            let open = mine && e.status == EscrowStatus::Created;
            let signed = s.effects.push(Effect::RequireAuth { who: renter });
            &&& refuses(r, Error::EscrowNotFound) <==> !found
            &&& refuses(r, Error::NotAuthorized) <==> found && !mine
            &&& refuses(r, Error::InvalidState) <==> mine && !open
            &&& refuses(r, Error::InvalidAmount) <==> open && amount <= 0
            &&& refuses(r, Error::StringTooLong) <==> open && amount > 0 && description.len() > 512
            &&& refuses(r, Error::TooManyMilestones) <==> open && amount > 0 && description.len()
                <= 512 && n >= 50
            &&& refuses(r, Error::NonChronologicalMilestones) <==> open && amount > 0
                && description.len() <= 512 && n < 50 && offset < e.milestones[n
                - 1].auto_release_offset
            &&& aborts(r) <==> open && amount > 0 && description.len() <= 512 && n < 50 && offset
                >= e.milestones[n - 1].auto_release_offset && e.total_amount + amount > i128::MAX
            &&& r is Ok <==> open && amount > 0 && description.len() <= 512 && n < 50 && offset
                >= e.milestones[n - 1].auto_release_offset && e.total_amount + amount <= i128::MAX
            &&& r is Err ==> t == (State { effects: signed, ..s })
            &&& r is Ok ==> {
                &&& t == (State { escrows: s.escrows.insert(id, f), effects: signed, ..s })
                &&& f.total_amount == e.total_amount + amount
                &&& f.milestones.len() == n + 1
                &&& forall|j: int| 0 <= j < n ==> #[trigger] f.milestones[j] == e.milestones[j]
                &&& f.milestones[n as int] == (MilestoneModel {
                    description,
                    amount,
                    auto_release_offset: offset,
                    auto_release_at: 0,
                    released: false,
                    released_at: 0,
                })
                &&& f.host_accepted == (e.host_accepted && !e.requires_host_acceptance)
                &&& f == (EscrowModel {
                    milestones: f.milestones,
                    total_amount: f.total_amount,
                    host_accepted: f.host_accepted,
                    ..e
                })
            }
        }),
{
}

/// The renter takes any milestone but the last one left out of an unfunded
/// escrow. The others close ranks, the total shrinks by its amount, and a host
/// who has to accept has to do so again.
pub proof fn law_milestone_removed(s: State, renter: Address, id: u32, i: u32)
    requires
        s.wf(),
    ensures
        ({
            let (t, r) = s.remove_milestone(renter, id, i);
            let found = s.escrows.contains_key(id);
            let e = s.escrows[id];
            let f = t.escrows[id];
            let n = e.milestones.len();
            let mine = found && e.renter == renter;
            let open = mine && e.status == EscrowStatus::Created;
            let signed = s.effects.push(Effect::RequireAuth { who: renter });
            &&& refuses(r, Error::EscrowNotFound) <==> !found
            &&& refuses(r, Error::NotAuthorized) <==> found && !mine
            &&& refuses(r, Error::InvalidState) <==> mine && !open
            &&& refuses(r, Error::NoMilestones) <==> open && n == 1
            &&& refuses(r, Error::InvalidMilestone) <==> open && n >= 2 && i >= n
            &&& r is Ok <==> open && n >= 2 && i < n
            &&& r is Err ==> t == (State { effects: signed, ..s })
            &&& r is Ok ==> {
                &&& t == (State { escrows: s.escrows.insert(id, f), effects: signed, ..s })
                &&& f.total_amount == e.total_amount - e.milestones[i as int].amount
                &&& f.milestones.len() == n - 1
                &&& forall|j: int| 0 <= j < i ==> #[trigger] f.milestones[j] == e.milestones[j]
                &&& forall|j: int|
                    i <= j < n - 1 ==> #[trigger] f.milestones[j] == e.milestones[j + 1]
                &&& f.host_accepted == (e.host_accepted && !e.requires_host_acceptance)
                &&& f == (EscrowModel {
                    milestones: f.milestones,
                    total_amount: f.total_amount,
                    host_accepted: f.host_accepted,
                    ..e
                })
            }
        }),
{
    if s.remove_milestone(renter, id, i).1 is Ok {
        lemma_remove_wf(s.escrows[id], i as int);
    }
}

/// The total of an escrow covers each of its milestones.
proof fn lemma_total_covers(e: EscrowModel, i: int)
    requires
        e.wf(),
        0 <= i < e.milestones.len(),
    ensures
        0 < e.milestones[i].amount <= e.total_amount,
{
    if e.milestones.len() > 1 {
        lemma_remove_wf(e, i);
    } else {
        assert(amount_sum(e.milestones.drop_last()) == 0);
    }
}

/// The renter replaces the terms of one milestone of an unfunded escrow, within
/// the order of its neighbours. The others stay, the total follows the change,
/// and a host who has to accept has to do so again.
pub proof fn law_milestone_updated(
    s: State,
    renter: Address,
    id: u32,
    i: u32,
    description: Seq<u8>,
    amount: i128,
    offset: u64,
)
    requires
        s.wf(),
    ensures
        ({
            let (t, r) = s.update_milestone(renter, id, i, description, amount, offset);
            let found = s.escrows.contains_key(id);
            let e = s.escrows[id];
            let f = t.escrows[id];
            let n = e.milestones.len();
            let mine = found && e.renter == renter;
            let open = mine && e.status == EscrowStatus::Created;
            let fine = open && amount > 0 && description.len() <= 512;
            let in_order = (i == 0 || e.milestones[i - 1].auto_release_offset <= offset) && (i
                == n - 1 || offset <= e.milestones[i + 1].auto_release_offset);
            let total = e.total_amount - e.milestones[i as int].amount + amount;
            let signed = s.effects.push(Effect::RequireAuth { who: renter });
            &&& refuses(r, Error::EscrowNotFound) <==> !found
            &&& refuses(r, Error::NotAuthorized) <==> found && !mine
            &&& refuses(r, Error::InvalidState) <==> mine && !open
            &&& refuses(r, Error::InvalidAmount) <==> open && amount <= 0
            &&& refuses(r, Error::StringTooLong) <==> open && amount > 0 && description.len() > 512
            &&& refuses(r, Error::InvalidMilestone) <==> fine && i >= n
            &&& refuses(r, Error::NonChronologicalMilestones) <==> fine && i < n && !in_order
            &&& aborts(r) <==> fine && i < n && in_order && total > i128::MAX
            &&& r is Ok <==> fine && i < n && in_order && total <= i128::MAX
            &&& r is Err ==> t == (State { effects: signed, ..s })
            &&& r is Ok ==> {
                &&& t == (State { escrows: s.escrows.insert(id, f), effects: signed, ..s })
                &&& f.total_amount == total
                &&& f.milestones.len() == n
                &&& forall|j: int|
                    0 <= j < n && j != i ==> #[trigger] f.milestones[j] == e.milestones[j]
                &&& f.milestones[i as int] == (MilestoneModel {
                    description,
                    amount,
                    auto_release_offset: offset,
                    auto_release_at: 0,
                    released: false,
                    released_at: 0,
                })
                &&& f.host_accepted == (e.host_accepted && !e.requires_host_acceptance)
                &&& f == (EscrowModel {
                    milestones: f.milestones,
                    total_amount: f.total_amount,
                    host_accepted: f.host_accepted,
                    ..e
                })
            }
        }),
{
    let e = s.escrows[id];
    if s.update_milestone(renter, id, i, description, amount, offset).1 is Ok {
        lemma_total_covers(e, i as int);
    }
}

/// Either party, and nobody else, calls off an escrow that is not funded. No
/// funds move.
pub proof fn law_either_party_cancels(s: State, caller: Address, id: u32)
    ensures
        ({
            let (t, r) = s.cancel_escrow(caller, id);
            let found = s.escrows.contains_key(id);
            let e = s.escrows[id];
            let party = found && (caller == e.renter || caller == e.host);
            &&& refuses(r, Error::EscrowNotFound) <==> !found
            &&& refuses(r, Error::NotAuthorized) <==> found && !party
            &&& refuses(r, Error::InvalidState) <==> party && e.status != EscrowStatus::Created
            &&& r is Ok <==> party && e.status == EscrowStatus::Created
            &&& r is Err ==> t == (State {
                effects: s.effects.push(Effect::RequireAuth { who: caller }),
                ..s
            })
            &&& r is Ok ==> t == (State {
                escrows: s.escrows.insert(id, EscrowModel { status: EscrowStatus::Cancelled, ..e }),
                effects: s.effects.push(Effect::RequireAuth { who: caller }).push(
                    Effect::Publish { event: Event::Cancelled { id } },
                ),
                ..s
            })
        }),
{
}

/// Anyone clears away a proposal from thirty days after its creation on, where
/// it is still not funded, and not a second earlier. No funds move.
pub proof fn law_proposals_expire_after_thirty_days(s: State, id: u32, now: u64)
    ensures
        ({
            let (t, r) = s.expire_unfunded_escrow(id, now);
            let found = s.escrows.contains_key(id);
            let e = s.escrows[id];
            let open = found && e.status == EscrowStatus::Created;
            let due = e.created_at + 2_592_000;
            &&& refuses(r, Error::EscrowNotFound) <==> !found
            &&& refuses(r, Error::InvalidState) <==> found && !open
            &&& aborts(r) <==> open && due > u64::MAX
            &&& refuses(r, Error::NotYetExpired) <==> open && due <= u64::MAX && now < due
            &&& r is Ok <==> open && due <= u64::MAX && now >= due
            &&& r is Err ==> t == s
            &&& r is Ok ==> t == (State {
                escrows: s.escrows.insert(id, EscrowModel { status: EscrowStatus::Cancelled, ..e }),
                effects: s.effects.push(Effect::Publish { event: Event::Expired { id } }),
                ..s
            })
        }),
{
}

} // verus!
