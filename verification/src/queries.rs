//! Read-only queries on escrows.

use crate::errors::{Error, Failure};
use crate::state::EscrowContract;
use crate::types::{Escrow, EscrowStatus, Milestone};
use vstd::prelude::*;

verus! {

impl EscrowContract {
    /// The escrow `escrow_id`.
    pub fn get_escrow(&self, escrow_id: u32) -> (r: Result<&Escrow, Failure>)
        ensures
            match r {
                Ok(e) => self@.escrows.contains_key(escrow_id) && e@ == self@.escrows[escrow_id],
                Err(f) => !self@.escrows.contains_key(escrow_id) && f == Failure::Refused(
                    Error::EscrowNotFound,
                ),
            },
    {
        match self.find_escrow(escrow_id) {
            Some(e) => Ok(e),
            None => Err(Failure::Refused(Error::EscrowNotFound)),
        }
    }

    /// The status of escrow `escrow_id`.
    pub fn get_escrow_status(&self, escrow_id: u32) -> (r: Result<EscrowStatus, Failure>)
        ensures
            match r {
                Ok(status) => self@.escrows.contains_key(escrow_id) && status
                    == self@.escrows[escrow_id].status,
                Err(f) => !self@.escrows.contains_key(escrow_id) && f == Failure::Refused(
                    Error::EscrowNotFound,
                ),
            },
    {
        match self.find_escrow(escrow_id) {
            Some(e) => Ok(e.status),
            None => Err(Failure::Refused(Error::EscrowNotFound)),
        }
    }

    /// One milestone of escrow `escrow_id`.
    pub fn get_milestone(&self, escrow_id: u32, milestone_index: u32) -> (r: Result<
        &Milestone,
        Failure,
    >)
        ensures
            match r {
                Ok(m) => {
                    &&& self@.escrows.contains_key(escrow_id)
                    &&& milestone_index < self@.escrows[escrow_id].milestones.len()
                    &&& m@ == self@.escrows[escrow_id].milestones[milestone_index as int]
                },
                Err(f) => if self@.escrows.contains_key(escrow_id) {
                    &&& milestone_index >= self@.escrows[escrow_id].milestones.len()
                    &&& f == Failure::Refused(Error::InvalidMilestone)
                } else {
                    f == Failure::Refused(Error::EscrowNotFound)
                },
            },
    {
        match self.find_escrow(escrow_id) {
            Some(e) => {
                let k: usize = milestone_index as usize;
                if k < e.milestones.len() {
                    Ok(&e.milestones[k])
                } else {
                    Err(Failure::Refused(Error::InvalidMilestone))
                }
            },
            None => Err(Failure::Refused(Error::EscrowNotFound)),
        }
    }

    /// Total number of escrows ever created; equivalently, one past the highest
    /// escrow ID.
    pub fn get_escrow_count(&self) -> (n: u32)
        ensures
            n == self@.escrow_count,
    {
        self.escrow_count
    }
}

} // verus!
