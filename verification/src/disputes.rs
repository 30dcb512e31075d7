//! Opening a dispute, submitting evidence and voting.

use crate::errors::{Error, Failure};
use crate::jurors::{assigned, eligible, lemma_jury_sound, lemma_push_contains};
use crate::params::{
    MAX_ADDITIONAL_EVIDENCE, MAX_DEADLINE_EXTENSION_SECONDS, MAX_STRING_LENGTH,
};
use crate::release::lemma_same_terms_wf;
use crate::state::{contains, refused, EscrowContract, State};
use crate::types::{
    Address, Dispute, DisputeModel, DisputeOutcome, EscrowModel, EscrowStatus, Event,
};
use vstd::prelude::*;

verus! {

impl EscrowModel {
    /// Whether `who` is renter or host.
    pub open spec fn is_party(self, who: Address) -> bool {
        who == self.renter || who == self.host
    }

    /// The escrow while milestone `i` is under dispute.
    pub open spec fn frozen(self, i: u32) -> EscrowModel {
        EscrowModel {
            status: EscrowStatus::Disputed,
            dispute_id: Some(i),
            ever_disputed: true,
            ..self
        }
    }
}

impl DisputeModel {
    /// The dispute with the vote of `juror` counted.
    pub open spec fn with_vote(self, juror: Address, for_renter: bool) -> DisputeModel {
        if for_renter {
            DisputeModel { votes_for_renter: self.votes_for_renter.push(juror), ..self }
        } else {
            DisputeModel { votes_for_host: self.votes_for_host.push(juror), ..self }
        }
    }
}

/// Why `evidence` is not acceptable.
pub open spec fn evidence_refusal(evidence: Seq<u8>) -> Option<Failure> {
    if evidence.len() == 0 {
        refused(Error::MissingEvidence)
    } else if evidence.len() > MAX_STRING_LENGTH {
        refused(Error::StringTooLong)
    } else {
        None
    }
}

impl State {
    /// Why `caller` cannot open a dispute on milestone `i` of escrow `id`.
    pub open spec fn raise_refusal(
        self,
        caller: Address,
        id: u32,
        i: u32,
        evidence: Seq<u8>,
        now: u64,
    ) -> Option<Failure> {
        if evidence_refusal(evidence) is Some {
            evidence_refusal(evidence)
        } else if !self.escrows.contains_key(id) {
            refused(Error::EscrowNotFound)
        } else {
            let e = self.escrows[id];
            let jury = self.jury(id, e.renter, e.host);
            if !e.is_party(caller) {
                refused(Error::NotAuthorized)
            } else if i >= e.milestones.len() {
                refused(Error::InvalidMilestone)
            } else if e.milestones[i as int].released {
                refused(Error::AlreadyReleased)
            } else if e.status == EscrowStatus::Disputed {
                refused(Error::EscrowDisputed)
            } else if e.status != EscrowStatus::Active {
                refused(Error::InvalidState)
            } else if eligible(self.juror_pool, e.renter, e.host).len() == 0 {
                refused(Error::NoJurorsAvailable)
            } else if !(forall|j: int|
                0 <= j < jury.len() ==> self.active_count(#[trigger] jury[j]) < u32::MAX) {
                Some(Failure::Aborted)
            } else if now + self.dispute_voting_window > u64::MAX {
                Some(Failure::Aborted)
            } else {
                None
            }
        }
    }

    /// The record of a dispute that `caller` opens on milestone `i` of escrow
    /// `id`. The rates and the voting rule are those of this moment.
    pub open spec fn new_dispute(
        self,
        caller: Address,
        id: u32,
        i: u32,
        evidence: Seq<u8>,
        now: u64,
    ) -> DisputeModel {
        DisputeModel {
            escrow_id: id,
            milestone_index: i,
            opened_by: caller,
            evidence_uri: evidence,
            jurors: self.jury(id, self.escrows[id].renter, self.escrows[id].host),
            votes_for_renter: Seq::empty(),
            votes_for_host: Seq::empty(),
            resolved: false,
            resolved_at: 0,
            outcome: DisputeOutcome::Pending,
            voting_deadline: (now + self.dispute_voting_window) as u64,
            additional_evidence: Seq::empty(),
            slash_bps: self.juror_params.slash_bps,
            arbitration_fee_bps: self.juror_params.arbitration_fee_bps,
            stake_weighted: self.stake_weighted_voting,
        }
    }

    /// Either party opens a dispute, which freezes the escrow and assigns a
    /// jury.
    pub open spec fn raise_dispute(
        self,
        caller: Address,
        id: u32,
        i: u32,
        evidence: Seq<u8>,
        now: u64,
    ) -> (State, Result<u32, Failure>) {
        let s = self.demand(caller);
        match s.raise_refusal(caller, id, i, evidence, now) {
            Some(f) => (s, Err(f)),
            None => {
                let d = s.new_dispute(caller, id, i, evidence, now);
                let t = State { active_disputes: assigned(s.active_disputes, d.jurors), ..s };
                (
                    t.with_dispute((id, i), d).with_escrow(id, s.escrows[id].frozen(i)).publish(
                        Event::Disputed { id, milestone_index: i, caller },
                    ),
                    Ok(id),
                )
            },
        }
    }

    /// Why `juror` cannot vote on the dispute of milestone `i` of escrow `id`.
    pub open spec fn vote_refusal(self, juror: Address, id: u32, i: u32) -> Option<Failure> {
        if !self.disputes.contains_key((id, i)) {
            refused(Error::NoDispute)
        } else {
            let d = self.disputes[(id, i)];
            if d.resolved {
                refused(Error::AlreadyResolved)
            } else if !d.jurors.contains(juror) {
                refused(Error::NotAJuror)
            } else if d.has_voted(juror) {
                refused(Error::AlreadyVoted)
            } else {
                None
            }
        }
    }

    /// An assigned juror votes for who should receive the disputed amount.
    pub open spec fn vote_dispute(self, juror: Address, id: u32, i: u32, vote_for_renter: bool) -> (
        State,
        Result<(), Failure>,
    ) {
        let s = self.demand(juror);
        match s.vote_refusal(juror, id, i) {
            Some(f) => (s, Err(f)),
            None => {
                let d = s.disputes[(id, i)];
                (s.with_dispute((id, i), d.with_vote(juror, vote_for_renter)), Ok(()))
            },
        }
    }

    /// Why `caller` cannot add `evidence` to the dispute of milestone `i` of
    /// escrow `id`.
    pub open spec fn add_evidence_refusal(
        self,
        caller: Address,
        id: u32,
        i: u32,
        evidence: Seq<u8>,
    ) -> Option<Failure> {
        if evidence_refusal(evidence) is Some {
            evidence_refusal(evidence)
        } else if !self.escrows.contains_key(id) {
            refused(Error::EscrowNotFound)
        } else if !self.escrows[id].is_party(caller) {
            refused(Error::NotAuthorized)
        } else if !self.disputes.contains_key((id, i)) {
            refused(Error::NoDispute)
        } else if self.disputes[(id, i)].resolved {
            refused(Error::AlreadyResolved)
        } else if self.disputes[(id, i)].additional_evidence.len() >= MAX_ADDITIONAL_EVIDENCE {
            refused(Error::TooMuchEvidence)
        } else {
            None
        }
    }

    /// Either party attaches more evidence to an open dispute.
    pub open spec fn add_dispute_evidence(
        self,
        caller: Address,
        id: u32,
        i: u32,
        evidence: Seq<u8>,
    ) -> (State, Result<(), Failure>) {
        let s = self.demand(caller);
        match s.add_evidence_refusal(caller, id, i, evidence) {
            Some(f) => (s, Err(f)),
            None => {
                let d = s.disputes[(id, i)];
                (
                    s.with_dispute(
                        (id, i),
                        DisputeModel {
                            additional_evidence: d.additional_evidence.push(evidence),
                            ..d
                        },
                    ),
                    Ok(()),
                )
            },
        }
    }

    /// Why the voting deadline of the dispute of milestone `i` of escrow `id`
    /// cannot be moved by `extra` seconds.
    pub open spec fn extend_voting_refusal(
        self,
        renter: Address,
        host: Address,
        id: u32,
        i: u32,
        extra: u64,
    ) -> Option<Failure> {
        if !self.escrows.contains_key(id) {
            refused(Error::EscrowNotFound)
        } else if self.escrows[id].renter != renter || self.escrows[id].host != host {
            refused(Error::NotAuthorized)
        } else if extra == 0 || extra > MAX_DEADLINE_EXTENSION_SECONDS {
            refused(Error::InvalidAmount)
        } else if !self.disputes.contains_key((id, i)) {
            refused(Error::NoDispute)
        } else if self.disputes[(id, i)].resolved {
            refused(Error::AlreadyResolved)
        } else if self.disputes[(id, i)].voting_deadline + extra > u64::MAX {
            refused(Error::InvalidAmount)
        } else {
            None
        }
    }

    /// Both parties grant the jurors more time to vote.
    pub open spec fn extend_dispute_deadline(
        self,
        renter: Address,
        host: Address,
        id: u32,
        i: u32,
        extra: u64,
    ) -> (State, Result<(), Failure>) {
        let s = self.demand(renter).demand(host);
        match s.extend_voting_refusal(renter, host, id, i, extra) {
            Some(f) => (s, Err(f)),
            None => {
                let d = s.disputes[(id, i)];
                (
                    s.with_dispute(
                        (id, i),
                        DisputeModel { voting_deadline: (d.voting_deadline + extra) as u64, ..d },
                    ),
                    Ok(()),
                )
            },
        }
    }
}

/// Why `evidence` is not acceptable.
fn check_evidence(evidence: &Vec<u8>) -> (r: Option<Failure>)
    ensures
        r == evidence_refusal(evidence@),
{
    if evidence.len() == 0 {
        Some(Failure::Refused(Error::MissingEvidence))
    } else if evidence.len() > MAX_STRING_LENGTH as usize {
        Some(Failure::Refused(Error::StringTooLong))
    } else {
        None
    }
}

/// Casting a vote keeps a dispute sound.
pub proof fn lemma_vote_wf(d: DisputeModel, juror: Address, for_renter: bool)
    requires
        d.wf(),
        d.jurors.contains(juror),
        !d.has_voted(juror),
    ensures
        d.with_vote(juror, for_renter).wf(),
{
    let v = d.with_vote(juror, for_renter);
    assert forall|a: Address|
        #![trigger v.votes_for_renter.contains(a)]
        #![trigger v.votes_for_host.contains(a)]
        {
            &&& v.has_voted(a) ==> v.jurors.contains(a)
            &&& !(v.votes_for_renter.contains(a) && v.votes_for_host.contains(a))
        } by {
        lemma_push_contains(d.votes_for_renter, juror, a);
        lemma_push_contains(d.votes_for_host, juror, a);
        assert(d.votes_for_renter.contains(a) ==> d.has_voted(a));
    }
}

impl EscrowContract {
    /// Either party can open a dispute on a pending milestone of a funded
    /// escrow. This freezes all not-yet-released milestones until jurors
    /// resolve it. The slash rate, the arbitration fee and the voting rule in
    /// force are recorded on the dispute.
    pub fn raise_dispute(
        &mut self,
        caller: Address,
        escrow_id: u32,
        milestone_index: u32,
        evidence_uri: Vec<u8>,
        now: u64,
    ) -> (r: Result<u32, Failure>)
        requires
            old(self)@.wf(),
        ensures
            (final(self)@, r) == old(self)@.raise_dispute(
                caller,
                escrow_id,
                milestone_index,
                evidence_uri@,
                now,
            ),
            final(self)@.wf(),
    {
        self.demand(caller);
        let ghost s = self@;
        let ghost e0 = s.escrows[escrow_id];
        if let Some(f) = check_evidence(&evidence_uri) {
            return Err(f);
        }
        let k: usize = milestone_index as usize;
        let jurors: Vec<Address> = match self.find_escrow(escrow_id) {
            Some(e) => {
                if caller != e.renter && caller != e.host {
                    return Err(Failure::Refused(Error::NotAuthorized));
                }
                if k >= e.milestones.len() {
                    return Err(Failure::Refused(Error::InvalidMilestone));
                }
                assert(e@.milestones[k as int] == e.milestones[k as int]@);
                if e.milestones[k].released {
                    return Err(Failure::Refused(Error::AlreadyReleased));
                }
                if e.status == EscrowStatus::Disputed {
                    return Err(Failure::Refused(Error::EscrowDisputed));
                }
                if e.status != EscrowStatus::Active {
                    return Err(Failure::Refused(Error::InvalidState));
                }
                self.select_jurors(escrow_id, e.renter, e.host)
            },
            None => {
                return Err(Failure::Refused(Error::EscrowNotFound));
            },
        };
        if jurors.len() == 0 {
            return Err(Failure::Refused(Error::NoJurorsAvailable));
        }
        if !self.can_assign(&jurors) {
            return Err(Failure::Aborted);
        }
        let voting_deadline: u64 = match now.checked_add(self.dispute_voting_window) {
            Some(at) => at,
            None => {
                return Err(Failure::Aborted);
            },
        };
        proof {
            lemma_jury_sound(s, escrow_id, e0.renter, e0.host);
        }
        self.inc_active_dispute_counts(&jurors);
        let d = Dispute {
            escrow_id,
            milestone_index,
            opened_by: caller,
            evidence_uri,
            jurors,
            votes_for_renter: Vec::new(),
            votes_for_host: Vec::new(),
            resolved: false,
            resolved_at: 0,
            outcome: DisputeOutcome::Pending,
            voting_deadline,
            additional_evidence: Vec::new(),
            slash_bps: self.juror_params.slash_bps,
            arbitration_fee_bps: self.juror_params.arbitration_fee_bps,
            stake_weighted: self.stake_weighted_voting,
        };
        assert(d@ =~= s.new_dispute(caller, escrow_id, milestone_index, evidence_uri@, now));
        assert(d@.wf());
        self.put_dispute((escrow_id, milestone_index), d);
        let mut e = self.take_escrow(escrow_id);
        e.status = EscrowStatus::Disputed;
        e.dispute_id = Some(milestone_index);
        e.ever_disputed = true;
        assert(e@ =~= e0.frozen(milestone_index));
        proof {
            lemma_same_terms_wf(e0, e@);
        }
        self.put_escrow(escrow_id, e);
        assert(self@.escrows =~= s.escrows.insert(escrow_id, e0.frozen(milestone_index)));
        self.publish(Event::Disputed { id: escrow_id, milestone_index, caller });
        Ok(escrow_id)
    }

    /// A juror assigned to this dispute casts a vote for who should receive the
    /// disputed milestone amount.
    pub fn vote_dispute(
        &mut self,
        juror: Address,
        escrow_id: u32,
        milestone_index: u32,
        vote_for_renter: bool,
    ) -> (r: Result<(), Failure>)
        requires
            old(self)@.wf(),
        ensures
            (final(self)@, r) == old(self)@.vote_dispute(
                juror,
                escrow_id,
                milestone_index,
                vote_for_renter,
            ),
            final(self)@.wf(),
    {
        self.demand(juror);
        let ghost s = self@;
        let key: (u32, u32) = (escrow_id, milestone_index);
        match self.find_dispute(key) {
            Some(d) => {
                if d.resolved {
                    return Err(Failure::Refused(Error::AlreadyResolved));
                }
                if !contains(&d.jurors, juror) {
                    return Err(Failure::Refused(Error::NotAJuror));
                }
                if contains(&d.votes_for_renter, juror) || contains(&d.votes_for_host, juror) {
                    return Err(Failure::Refused(Error::AlreadyVoted));
                }
            },
            None => {
                return Err(Failure::Refused(Error::NoDispute));
            },
        }
        let mut d = self.take_dispute(key);
        proof {
            lemma_vote_wf(d@, juror, vote_for_renter);
        }
        if vote_for_renter {
            d.votes_for_renter.push(juror);
        } else {
            d.votes_for_host.push(juror);
        }
        self.put_dispute(key, d);
        assert(self@.disputes =~= s.disputes.insert(key, d@));
        Ok(())
    }

    /// Either party, not just whoever opened the dispute, can attach more
    /// evidence for jurors to consider.
    pub fn add_dispute_evidence(
        &mut self,
        caller: Address,
        escrow_id: u32,
        milestone_index: u32,
        evidence_uri: Vec<u8>,
    ) -> (r: Result<(), Failure>)
        requires
            old(self)@.wf(),
        ensures
            (final(self)@, r) == old(self)@.add_dispute_evidence(
                caller,
                escrow_id,
                milestone_index,
                evidence_uri@,
            ),
            final(self)@.wf(),
    {
        self.demand(caller);
        let ghost s = self@;
        if let Some(f) = check_evidence(&evidence_uri) {
            return Err(f);
        }
        match self.find_escrow(escrow_id) {
            Some(e) => {
                if caller != e.renter && caller != e.host {
                    return Err(Failure::Refused(Error::NotAuthorized));
                }
            },
            None => {
                return Err(Failure::Refused(Error::EscrowNotFound));
            },
        }
        let key: (u32, u32) = (escrow_id, milestone_index);
        match self.find_dispute(key) {
            Some(d) => {
                if d.resolved {
                    return Err(Failure::Refused(Error::AlreadyResolved));
                }
                if d.additional_evidence.len() >= MAX_ADDITIONAL_EVIDENCE as usize {
                    return Err(Failure::Refused(Error::TooMuchEvidence));
                }
            },
            None => {
                return Err(Failure::Refused(Error::NoDispute));
            },
        }
        let mut d = self.take_dispute(key);
        let ghost before = d@.additional_evidence;
        d.additional_evidence.push(evidence_uri);
        assert(d@.additional_evidence =~= before.push(evidence_uri@));
        self.put_dispute(key, d);
        assert(self@.disputes =~= s.disputes.insert(key, d@));
        Ok(())
    }

    /// Both parties together move the voting deadline of an open dispute to a
    /// later time, by at most `MAX_DEADLINE_EXTENSION_SECONDS` per call.
    pub fn extend_dispute_deadline(
        &mut self,
        renter: Address,
        host: Address,
        escrow_id: u32,
        milestone_index: u32,
        additional_seconds: u64,
    ) -> (r: Result<(), Failure>)
        requires
            old(self)@.wf(),
        ensures
            (final(self)@, r) == old(self)@.extend_dispute_deadline(
                renter,
                host,
                escrow_id,
                milestone_index,
                additional_seconds,
            ),
            final(self)@.wf(),
    {
        self.demand(renter);
        self.demand(host);
        let ghost s = self@;
        match self.find_escrow(escrow_id) {
            Some(e) => {
                if e.renter != renter || e.host != host {
                    return Err(Failure::Refused(Error::NotAuthorized));
                }
            },
            None => {
                return Err(Failure::Refused(Error::EscrowNotFound));
            },
        }
        if additional_seconds == 0 || additional_seconds > MAX_DEADLINE_EXTENSION_SECONDS {
            return Err(Failure::Refused(Error::InvalidAmount));
        }
        let key: (u32, u32) = (escrow_id, milestone_index);
        let at: u64 = match self.find_dispute(key) {
            Some(d) => {
                if d.resolved {
                    return Err(Failure::Refused(Error::AlreadyResolved));
                }
                match d.voting_deadline.checked_add(additional_seconds) {
                    Some(at) => at,
                    None => {
                        return Err(Failure::Refused(Error::InvalidAmount));
                    },
                }
            },
            None => {
                return Err(Failure::Refused(Error::NoDispute));
            },
        };
        let mut d = self.take_dispute(key);
        d.voting_deadline = at;
        self.put_dispute(key, d);
        assert(self@.disputes =~= s.disputes.insert(key, d@));
        Ok(())
    }

    /// The dispute record of a milestone, where there is one.
    pub fn get_dispute(&self, escrow_id: u32, milestone_index: u32) -> (r: Option<&Dispute>)
        ensures
            match r {
                Some(d) => self@.disputes.contains_key((escrow_id, milestone_index)) && d@
                    == self@.disputes[(escrow_id, milestone_index)],
                None => !self@.disputes.contains_key((escrow_id, milestone_index)),
            },
    {
        self.find_dispute((escrow_id, milestone_index))
    }
}

} // verus!
