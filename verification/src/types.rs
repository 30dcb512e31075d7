//! The values that the contract keeps and exchanges, and their models.

use vstd::prelude::*;

verus! {

/// A handle for an account or contract address: equal handles stand for equal
/// addresses.
pub type Address = u64;

#[derive(Clone, Copy, PartialEq, Eq, Debug, Structural)]
pub enum EscrowStatus {
    Created,
    Active,
    Disputed,
    Completed,
    Cancelled,
}

#[derive(Clone, Copy, PartialEq, Eq, Debug, Structural)]
pub enum DisputeOutcome {
    Pending,
    RenterWins,
    HostWins,
    /// Jurors never reached a full vote before the deadline; the disputed
    /// amount was split evenly instead of leaving it frozen forever.
    Split,
}

#[derive(Clone, Debug)]
pub struct Milestone {
    pub description: Vec<u8>,
    pub amount: i128,
    /// Seconds after deposit before this milestone auto-releases.
    pub auto_release_offset: u64,
    /// Absolute ledger timestamp; set when the escrow is funded.
    pub auto_release_at: u64,
    /// True once this milestone is no longer pending: paid out, or written off
    /// by the refund of `mutual_cancel` (`released_at` tells those apart).
    pub released: bool,
    /// Ledger timestamp of a release that paid the host, 0 where the host was
    /// paid nothing.
    pub released_at: u64,
}

#[derive(Clone, Debug)]
pub struct Escrow {
    pub id: u32,
    pub renter: Address,
    pub host: Address,
    pub asset: Address,
    pub total_amount: i128,
    pub funded_amount: i128,
    pub milestones: Vec<Milestone>,
    pub status: EscrowStatus,
    /// The milestone under dispute while `status` is `Disputed`.
    pub dispute_id: Option<u32>,
    /// False only where the host still has to accept the present terms.
    pub host_accepted: bool,
    /// Whether this escrow was created with a host-acceptance gate at all.
    pub requires_host_acceptance: bool,
    /// Ledger timestamp at creation.
    pub created_at: u64,
    /// Set by `raise_dispute` and never cleared.
    pub ever_disputed: bool,
}

#[derive(Clone, Copy, PartialEq, Eq, Debug, Structural)]
pub struct JurorStakeInfo {
    pub asset: Address,
    pub amount: i128,
}

#[derive(Clone, Copy, PartialEq, Eq, Debug, Structural)]
pub struct JurorParams {
    pub min_stake: i128,
    pub jury_size: u32,
    /// Basis points of a losing juror's stake slashed on a resolved dispute.
    pub slash_bps: u32,
    /// Minimum reputation required to register as a juror.
    pub min_reputation: i32,
    /// Basis points of a resolved dispute's amount paid to its jurors.
    pub arbitration_fee_bps: u32,
}

#[derive(Clone, Copy, PartialEq, Eq, Debug, Structural)]
pub struct FeeConfig {
    /// Protocol fee in basis points, taken out of every payout.
    pub bps: u32,
    pub treasury: Address,
}

#[derive(Clone, Debug)]
pub struct Dispute {
    pub escrow_id: u32,
    pub milestone_index: u32,
    pub opened_by: Address,
    /// The opener's initial submission.
    pub evidence_uri: Vec<u8>,
    pub jurors: Vec<Address>,
    pub votes_for_renter: Vec<Address>,
    pub votes_for_host: Vec<Address>,
    pub resolved: bool,
    /// Ledger timestamp of the resolution, or 0 while open.
    pub resolved_at: u64,
    pub outcome: DisputeOutcome,
    /// Ledger timestamp from which `force_resolve_stale_dispute` is open to
    /// anyone if jurors have not finished voting.
    pub voting_deadline: u64,
    /// Follow-up evidence from either party.
    pub additional_evidence: Vec<Vec<u8>>,
    /// The slash rate when the dispute was raised.
    pub slash_bps: u32,
    /// The arbitration fee when the dispute was raised.
    pub arbitration_fee_bps: u32,
    /// Whether votes are weighted by stake, as set when the dispute was raised.
    pub stake_weighted: bool,
}

/// An event for off-chain observers.
#[derive(Clone, Copy, PartialEq, Eq, Debug, Structural)]
pub enum Event {
    Created { id: u32, renter: Address, host: Address, total_amount: i128 },
    Funded { id: u32, total_amount: i128 },
    Released { id: u32, milestone_index: u32, amount: i128, host: Address },
    Complete { id: u32 },
    Cancelled { id: u32 },
    Expired { id: u32 },
    Mutual { id: u32, refund: i128 },
    Disputed { id: u32, milestone_index: u32, caller: Address },
    Resolved { id: u32, milestone_index: u32, recipient: Address },
    Stale { id: u32, milestone_index: u32 },
    JurorJoined { juror: Address, stake: i128 },
    JurorLeft { juror: Address, amount: i128 },
}

/// What a call asks of its surroundings.
#[derive(Clone, Copy, PartialEq, Eq, Debug, Structural)]
pub enum Effect {
    /// `who` must have signed this call; otherwise the call is void.
    RequireAuth { who: Address },
    /// Tokens to move from `from` into the contract's balance.
    Collect { asset: Address, from: Address, amount: i128 },
    /// Tokens to move from the contract's balance to `to`.
    Pay { asset: Address, to: Address, amount: i128 },
    /// An event to publish.
    Publish { event: Event },
}

/// Model of [`Milestone`].
#[verifier::ext_equal]
pub struct MilestoneModel {
    pub description: Seq<u8>,
    pub amount: i128,
    pub auto_release_offset: u64,
    pub auto_release_at: u64,
    pub released: bool,
    pub released_at: u64,
}

/// Model of [`Escrow`].
#[verifier::ext_equal]
pub struct EscrowModel {
    pub id: u32,
    pub renter: Address,
    pub host: Address,
    pub asset: Address,
    pub total_amount: i128,
    pub funded_amount: i128,
    pub milestones: Seq<MilestoneModel>,
    pub status: EscrowStatus,
    pub dispute_id: Option<u32>,
    pub host_accepted: bool,
    pub requires_host_acceptance: bool,
    pub created_at: u64,
    pub ever_disputed: bool,
}

/// Model of [`Dispute`].
#[verifier::ext_equal]
pub struct DisputeModel {
    pub escrow_id: u32,
    pub milestone_index: u32,
    pub opened_by: Address,
    pub evidence_uri: Seq<u8>,
    pub jurors: Seq<Address>,
    pub votes_for_renter: Seq<Address>,
    pub votes_for_host: Seq<Address>,
    pub resolved: bool,
    pub resolved_at: u64,
    pub outcome: DisputeOutcome,
    pub voting_deadline: u64,
    pub additional_evidence: Seq<Seq<u8>>,
    pub slash_bps: u32,
    pub arbitration_fee_bps: u32,
    pub stake_weighted: bool,
}

impl View for Milestone {
    type V = MilestoneModel;

    open spec fn view(&self) -> MilestoneModel {
        MilestoneModel {
            description: self.description@,
            amount: self.amount,
            auto_release_offset: self.auto_release_offset,
            auto_release_at: self.auto_release_at,
            released: self.released,
            released_at: self.released_at,
        }
    }
}

impl View for Escrow {
    type V = EscrowModel;

    open spec fn view(&self) -> EscrowModel {
        EscrowModel {
            id: self.id,
            renter: self.renter,
            host: self.host,
            asset: self.asset,
            total_amount: self.total_amount,
            funded_amount: self.funded_amount,
            milestones: self.milestones@.map_values(|m: Milestone| m@),
            status: self.status,
            dispute_id: self.dispute_id,
            host_accepted: self.host_accepted,
            requires_host_acceptance: self.requires_host_acceptance,
            created_at: self.created_at,
            ever_disputed: self.ever_disputed,
        }
    }
}

impl View for Dispute {
    type V = DisputeModel;

    open spec fn view(&self) -> DisputeModel {
        DisputeModel {
            escrow_id: self.escrow_id,
            milestone_index: self.milestone_index,
            opened_by: self.opened_by,
            evidence_uri: self.evidence_uri@,
            jurors: self.jurors@,
            votes_for_renter: self.votes_for_renter@,
            votes_for_host: self.votes_for_host@,
            resolved: self.resolved,
            resolved_at: self.resolved_at,
            outcome: self.outcome,
            voting_deadline: self.voting_deadline,
            additional_evidence: self.additional_evidence@.map_values(|e: Vec<u8>| e@),
            slash_bps: self.slash_bps,
            arbitration_fee_bps: self.arbitration_fee_bps,
            stake_weighted: self.stake_weighted,
        }
    }
}

} // verus!
