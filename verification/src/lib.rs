//! Milestone rental escrow with staked-juror disputes.
//!
//! A renter and a host agree on an ordered list of milestones and an asset.
//! The renter deposits the full amount, and each milestone is released by the
//! renter's confirmation, by its timeout, by both parties unwinding the escrow,
//! or by the vote of a staked jury.
//!
//! [`EscrowContract`] holds the whole contract state as plain values. Every
//! call is a method on it. What a call asks of its surroundings (signatures to
//! demand, tokens to move, events to publish) is appended, in order, to
//! [`EscrowContract::effects`]; ledger time comes in as an argument.
//!
//! [`State`] is the mathematical model of the contract. It has one operation
//! per call, and each executable method is proved to do exactly what the
//! operation of the same name says.

pub mod admin;
pub mod disputes;
pub mod errors;
pub mod incentives;
pub mod jurors;
pub mod laws;
pub mod lifecycle;
pub mod params;
pub mod payout;
pub mod queries;
pub mod release;
pub mod resolution;
pub mod restore;
pub mod state;
pub mod types;

pub use errors::{Error, Failure};
pub use state::{EscrowContract, State};
pub use types::{
    Address, Dispute, DisputeOutcome, Effect, Escrow, EscrowStatus, Event, FeeConfig,
    JurorParams, JurorStakeInfo, Milestone,
};
