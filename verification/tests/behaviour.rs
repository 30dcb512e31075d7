#![allow(dead_code)]

use escrow::params::{
    DEFAULT_DISPUTE_VOTING_WINDOW, DEFAULT_JUROR_SLASH_BPS, DEFAULT_MIN_JUROR_STAKE,
    MAX_DEADLINE_EXTENSION_SECONDS, MAX_DISPUTE_VOTING_WINDOW, MIN_DISPUTE_VOTING_WINDOW,
    UNFUNDED_EXPIRY_WINDOW,
};
use escrow::{
    Address, Dispute, DisputeOutcome, Effect, Error, Escrow, EscrowContract, EscrowStatus, Event,
    Failure, FeeConfig, JurorParams, JurorStakeInfo,
};
use std::collections::BTreeMap;

/// The contract's own account in the token ledger below.
const CONTRACT: Address = 0;

type Terms = Vec<(Vec<u8>, i128, u64)>;

/// A contract with a clock and a token ledger that carries out its effects.
/// Every signature is taken as given.
struct World {
    contract: EscrowContract,
    balances: BTreeMap<(Address, Address), i128>,
    carried_out: usize,
    now: u64,
    last_address: Address,
}

impl World {
    fn new() -> World {
        World {
            contract: EscrowContract::new(),
            balances: BTreeMap::new(),
            carried_out: 0,
            now: 0,
            last_address: CONTRACT,
        }
    }

    /// A new address.
    fn generate(&mut self) -> Address {
        self.last_address += 1;
        self.last_address
    }

    fn balance(&self, asset: Address, who: Address) -> i128 {
        *self.balances.get(&(asset, who)).unwrap_or(&0)
    }

    fn mint(&mut self, asset: Address, who: Address, amount: i128) {
        *self.balances.entry((asset, who)).or_insert(0) += amount;
    }

    fn transfer(&mut self, asset: Address, from: Address, to: Address, amount: i128) {
        assert!(amount >= 0);
        assert!(self.balance(asset, from) >= amount, "balance too low");
        self.mint(asset, from, -amount);
        self.mint(asset, to, amount);
    }

    /// Carries out what a call asked for, and panics where it failed.
    fn done<T>(&mut self, result: Result<T, Failure>) -> T {
        match result {
            Ok(value) => {
                while self.carried_out < self.contract.effects.len() {
                    match self.contract.effects[self.carried_out] {
                        Effect::Collect { asset, from, amount } => {
                            self.transfer(asset, from, CONTRACT, amount);
                        }
                        Effect::Pay { asset, to, amount } => {
                            self.transfer(asset, CONTRACT, to, amount);
                        }
                        Effect::RequireAuth { .. } | Effect::Publish { .. } => {}
                    }
                    self.carried_out += 1;
                }
                value
            }
            Err(Failure::Refused(e)) => panic!("Error(Contract, #{})", e.code()),
            Err(Failure::Aborted) => panic!("aborted"),
        }
    }

    fn initialize(&mut self, admin: Address) {
        let r = self.contract.initialize(admin);
        self.done(r)
    }

    fn set_fee_config(&mut self, admin: Address, bps: u32, treasury: Address) {
        let r = self.contract.set_fee_config(admin, bps, treasury);
        self.done(r)
    }

    /// Without an arbitration fee.
    fn set_juror_params(&mut self, admin: Address, stake: i128, size: u32, slash: u32, min: i32) {
        let r = self.contract.set_juror_params(admin, stake, size, slash, min, 0);
        self.done(r)
    }

    fn create_escrow(
        &mut self,
        renter: Address,
        host: Address,
        asset: Address,
        terms: &Terms,
        gated: bool,
    ) -> u32 {
        let r = self.contract.create_escrow(renter, host, asset, terms.clone(), gated, self.now);
        self.done(r)
    }

    fn deposit(&mut self, renter: Address, id: u32) {
        let r = self.contract.deposit(renter, id, self.now);
        self.done(r)
    }

    fn confirm_milestone(&mut self, renter: Address, id: u32, i: u32) {
        let r = self.contract.confirm_milestone(renter, id, i, self.now);
        self.done(r)
    }

    fn raise_dispute(&mut self, caller: Address, id: u32, i: u32, evidence: &str) -> u32 {
        let r = self.contract.raise_dispute(caller, id, i, text(evidence), self.now);
        self.done(r)
    }

    fn vote_dispute(&mut self, juror: Address, id: u32, i: u32, vote_for_renter: bool) {
        let r = self.contract.vote_dispute(juror, id, i, vote_for_renter);
        self.done(r)
    }

    fn resolve_dispute(&mut self, id: u32, i: u32) {
        let r = self.contract.resolve_dispute(id, i, self.now);
        self.done(r)
    }

    fn register_juror(&mut self, juror: Address, asset: Address, stake: i128) {
        let r = self.contract.register_juror(juror, asset, stake);
        self.done(r)
    }

    fn withdraw_juror_stake(&mut self, juror: Address) {
        let r = self.contract.withdraw_juror_stake(juror);
        self.done(r)
    }

    /// A new juror with 200 units of `asset`, of which 100 are staked.
    fn new_juror(&mut self, asset: Address) -> Address {
        let juror = self.generate();
        self.mint(asset, juror, 200_0000000);
        self.register_juror(juror, asset, 100_0000000);
        juror
    }

    fn escrow(&self, id: u32) -> &Escrow {
        self.contract.get_escrow(id).unwrap()
    }

    fn status(&self, id: u32) -> EscrowStatus {
        self.escrow(id).status
    }

    fn dispute(&self, id: u32, i: u32) -> &Dispute {
        self.contract.get_dispute(id, i).unwrap()
    }

    fn stake(&self, juror: Address) -> i128 {
        self.contract.get_juror_stake(juror).unwrap().amount
    }

    fn events(&self) -> Vec<Event> {
        let mut events = Vec::new();
        for effect in &self.contract.effects {
            if let Effect::Publish { event } = effect {
                events.push(*event);
            }
        }
        events
    }
}

fn text(s: &str) -> Vec<u8> {
    s.as_bytes().to_vec()
}

fn term(description: &str, amount: i128, offset: u64) -> (Vec<u8>, i128, u64) {
    (text(description), amount, offset)
}

/// An initialized contract, its admin, a renter with funds, a host and an asset.
fn setup() -> (World, Address, Address, Address, Address) {
    let mut w = World::new();
    let admin = w.generate();
    let renter = w.generate();
    let host = w.generate();
    let asset = w.generate();
    w.initialize(admin);
    w.mint(asset, renter, 1_000_0000000);
    (w, admin, renter, host, asset)
}

/// The same with a funded escrow of one milestone and three jurors.
fn setup_disputable(amount: i128) -> (World, Address, Address, Address, Address, u32, Vec<Address>) {
    let (mut w, admin, renter, host, asset) = setup();
    let jurors = vec![w.new_juror(asset), w.new_juror(asset), w.new_juror(asset)];
    let id = w.create_escrow(renter, host, asset, &vec![term("deposit", amount, 1000)], false);
    w.deposit(renter, id);
    (w, admin, renter, host, asset, id, jurors)
}

fn refused<T>(e: Error) -> Result<T, Failure> {
    Err(Failure::Refused(e))
}

#[test]
fn error_codes_follow_the_documented_table() {
    let table = [
        Error::AlreadyInitialized,
        Error::NoMilestones,
        Error::InvalidAmount,
        Error::NotAuthorized,
        Error::InvalidState,
        Error::EscrowNotFound,
        Error::InvalidMilestone,
        Error::AlreadyReleased,
        Error::TooEarly,
        Error::EscrowDisputed,
        Error::NoDispute,
        Error::AlreadyResolved,
        Error::NotAJuror,
        Error::AlreadyVoted,
        Error::VotingIncomplete,
        Error::InsufficientStake,
        Error::NoJurorsAvailable,
        Error::FeeTooHigh,
        Error::InvalidJurySize,
        Error::AssetMismatch,
        Error::JurorHasActiveDispute,
        Error::SameParty,
        Error::MissingEvidence,
        Error::NonChronologicalMilestones,
        Error::ContractPaused,
        Error::SlashTooHigh,
        Error::ReputationTooLow,
        Error::HostAcceptancePending,
        Error::StringTooLong,
        Error::TooManyMilestones,
        Error::NotYetExpired,
        Error::InvalidVotingWindow,
        Error::ArbitrationFeeTooHigh,
        Error::TooMuchEvidence,
    ];
    for (i, e) in table.iter().enumerate() {
        assert_eq!(e.code(), i as u32 + 1);
    }
}

#[test]
fn a_new_contract_is_unconfigured() {
    let w = World::new();
    assert_eq!(w.contract.get_admin(), refused(Error::NotAuthorized));
    assert_eq!(w.contract.get_pending_admin(), None);
    assert_eq!(w.contract.get_fee_config(), None);
    assert_eq!(w.contract.get_dispute_voting_window(), 259_200);
    assert!(!w.contract.is_paused());
    assert!(!w.contract.get_stake_weighted_voting());
    assert!(!w.contract.is_fee_exempt(1));
    assert_eq!(w.contract.get_escrow_count(), 0);
    let p = w.contract.get_juror_params();
    assert_eq!(
        p,
        JurorParams {
            min_stake: 100_0000000,
            jury_size: 3,
            slash_bps: 1000,
            min_reputation: i32::MIN,
            arbitration_fee_bps: 0,
        }
    );
}

#[test]
fn second_setup_is_refused() {
    let (mut w, admin, _, _, _) = setup();
    assert_eq!(w.contract.initialize(admin), refused(Error::AlreadyInitialized));
    let other = w.generate();
    assert_eq!(w.contract.initialize(other), refused(Error::AlreadyInitialized));
    assert_eq!(w.contract.get_admin(), Ok(admin));
}

#[test]
fn first_setup_after_escrows_keeps_them() {
    let mut w = World::new();
    let renter = w.generate();
    let host = w.generate();
    let terms = vec![term("early", 5, 0)];
    assert_eq!(w.create_escrow(renter, host, 9, &terms, false), 0);
    assert_eq!(w.contract.get_escrow_count(), 1);
    w.mint(9, renter, 5);
    w.deposit(renter, 0);
    w.initialize(renter);
    assert_eq!(w.contract.get_escrow_count(), 1);
    assert_eq!(w.create_escrow(renter, host, 9, &terms, false), 1);
    assert_eq!(w.status(0), EscrowStatus::Active);
    assert_eq!(w.contract.get_escrows_for_party(host), [0, 1]);
}

#[test]
fn governance_before_setup_is_refused() {
    let mut w = World::new();
    assert_eq!(w.contract.set_paused(1, true), refused(Error::NotAuthorized));
    assert_eq!(w.contract.transfer_admin(1, 2), refused(Error::NotAuthorized));
    assert_eq!(w.contract.accept_admin_transfer(2), refused(Error::NotAuthorized));
}

#[test]
fn voting_window_bounds_are_inclusive() {
    let (mut w, admin, _, _, _) = setup();
    let low = MIN_DISPUTE_VOTING_WINDOW;
    let high = MAX_DISPUTE_VOTING_WINDOW;
    assert_eq!((low, high), (3_600, 2_592_000));
    assert_eq!(
        w.contract.set_dispute_voting_window(admin, low - 1),
        refused(Error::InvalidVotingWindow)
    );
    assert_eq!(
        w.contract.set_dispute_voting_window(admin, high + 1),
        refused(Error::InvalidVotingWindow)
    );
    assert_eq!(w.contract.get_dispute_voting_window(), DEFAULT_DISPUTE_VOTING_WINDOW);
    assert_eq!(w.contract.set_dispute_voting_window(admin, low), Ok(()));
    assert_eq!(w.contract.get_dispute_voting_window(), low);
    assert_eq!(w.contract.set_dispute_voting_window(admin, high), Ok(()));
    assert_eq!(w.contract.get_dispute_voting_window(), high);
}

#[test]
fn juror_params_are_checked_in_order() {
    let (mut w, admin, _, _, _) = setup();
    let stranger = w.generate();
    let c = &mut w.contract;
    assert_eq!(c.set_juror_params(stranger, 0, 0, 9000, 0, 9000), refused(Error::NotAuthorized));
    assert_eq!(c.set_juror_params(admin, 0, 0, 9000, 0, 9000), refused(Error::InvalidAmount));
    assert_eq!(c.set_juror_params(admin, 1, 0, 9000, 0, 9000), refused(Error::InvalidJurySize));
    assert_eq!(c.set_juror_params(admin, 1, 2, 9000, 0, 9000), refused(Error::InvalidJurySize));
    assert_eq!(c.set_juror_params(admin, 1, 1, 5001, 0, 9000), refused(Error::SlashTooHigh));
    assert_eq!(
        c.set_juror_params(admin, 1, 1, 5000, 0, 1001),
        refused(Error::ArbitrationFeeTooHigh)
    );
    assert_eq!(c.set_juror_params(admin, 1, 1, 5000, -7, 1000), Ok(()));
    assert_eq!(
        c.get_juror_params(),
        JurorParams {
            min_stake: 1,
            jury_size: 1,
            slash_bps: 5000,
            min_reputation: -7,
            arbitration_fee_bps: 1000,
        }
    );
}

#[test]
fn governance_asks_for_a_signature_and_nothing_else() {
    let (mut w, admin, _, _, _) = setup();
    let before = w.contract.effects.len();
    let treasury = w.generate();
    w.set_fee_config(admin, 2000, treasury);
    assert_eq!(w.contract.get_fee_config(), Some(FeeConfig { bps: 2000, treasury }));
    assert_eq!(w.contract.effects[before..], [Effect::RequireAuth { who: admin }]);
}

#[test]
fn a_failed_call_leaves_only_its_demands() {
    let (mut w, _, renter, host, asset) = setup();
    let terms = vec![term("one", 10, 5)];
    let id = w.create_escrow(renter, host, asset, &terms, false);
    let before = w.contract.effects.len();

    let r = w.contract.mutual_cancel(renter, host, id);
    assert_eq!(r, refused(Error::InvalidState));
    assert_eq!(
        w.contract.effects[before..],
        [Effect::RequireAuth { who: renter }, Effect::RequireAuth { who: host }]
    );
    assert_eq!(w.status(id), EscrowStatus::Created);

    let before = w.contract.effects.len();
    assert_eq!(w.contract.check_auto_release(id, 0, 100), refused(Error::InvalidState));
    assert_eq!(w.contract.effects.len(), before);
}

#[test]
fn creation_and_funding_in_full() {
    let (mut w, _, renter, host, asset) = setup();
    w.now = 1_700;
    let terms = vec![term("a", 3, 10), term("b", 4, 10), term("c", 5, 20)];
    let before = w.contract.effects.len();
    let id = w.create_escrow(renter, host, asset, &terms, false);
    assert_eq!(id, 0);
    assert_eq!(
        w.contract.effects[before..],
        [
            Effect::RequireAuth { who: renter },
            Effect::Publish { event: Event::Created { id, renter, host, total_amount: 12 } },
        ]
    );
    let e = w.escrow(id);
    assert_eq!((e.id, e.renter, e.host, e.asset), (0, renter, host, asset));
    assert_eq!((e.total_amount, e.funded_amount), (12, 0));
    assert_eq!(e.created_at, 1_700);
    assert!(e.host_accepted && !e.requires_host_acceptance && !e.ever_disputed);
    assert_eq!(e.milestones[2].auto_release_at, 0);

    let before = w.contract.effects.len();
    w.deposit(renter, id);
    assert_eq!(
        w.contract.effects[before..],
        [
            Effect::RequireAuth { who: renter },
            Effect::Collect { asset, from: renter, amount: 12 },
            Effect::Publish { event: Event::Funded { id, total_amount: 12 } },
        ]
    );
    let e = w.escrow(id);
    assert_eq!(e.funded_amount, 12);
    let deadlines: Vec<u64> = e.milestones.iter().map(|m| m.auto_release_at).collect();
    assert_eq!(deadlines, [1_710, 1_710, 1_720]);

    // An escrow is funded once.
    assert_eq!(w.contract.deposit(renter, id, w.now), refused(Error::InvalidState));
}

#[test]
fn terms_are_checked_in_order() {
    let (mut w, _, renter, host, asset) = setup();
    let mut create = |terms: Terms| w.contract.create_escrow(renter, host, asset, terms, false, 0);
    assert_eq!(create(vec![]), refused(Error::NoMilestones));
    assert_eq!(create(vec![term("a", 0, 0)]), refused(Error::InvalidAmount));
    assert_eq!(create(vec![term("a", -1, 0)]), refused(Error::InvalidAmount));
    assert_eq!(create(vec![term("a", 1, 7), term("b", 0, 3)]), refused(Error::InvalidAmount));
    assert_eq!(
        create(vec![term("a", 1, 7), term("b", 1, 6)]),
        refused(Error::NonChronologicalMilestones)
    );
    assert_eq!(create(vec![term("a", i128::MAX, 0), term("b", 1, 0)]), Err(Failure::Aborted));
    assert_eq!(create(vec![term(&"x".repeat(512), i128::MAX, u64::MAX)]), Ok(0));
}

#[test]
fn unknown_escrows_are_refused() {
    let (mut w, _, renter, host, _) = setup();
    let missing = |r: Result<(), Failure>| assert_eq!(r, refused(Error::EscrowNotFound));
    missing(w.contract.accept_escrow(host, 4));
    missing(w.contract.reject_escrow(host, 4));
    missing(w.contract.add_milestone(renter, 4, text("x"), 1, 0));
    missing(w.contract.remove_milestone(renter, 4, 0));
    missing(w.contract.update_milestone(renter, 4, 0, text("x"), 1, 0));
    missing(w.contract.deposit(renter, 4, 0));
    missing(w.contract.cancel_escrow(renter, 4));
    missing(w.contract.expire_unfunded_escrow(4, 0));
    missing(w.contract.mutual_cancel(renter, host, 4));
    missing(w.contract.confirm_milestone(renter, 4, 0, 0));
    missing(w.contract.confirm_all_milestones(renter, 4, 0));
    missing(w.contract.check_auto_release(4, 0, 0));
    missing(w.contract.extend_milestone_deadline(renter, 4, 0, 1));
    missing(w.contract.add_dispute_evidence(renter, 4, 0, text("x")));
    missing(w.contract.extend_dispute_deadline(renter, host, 4, 0, 1));
    assert_eq!(
        w.contract.raise_dispute(renter, 4, 0, text("x"), 0),
        refused(Error::EscrowNotFound)
    );
    assert!(w.contract.get_escrow(4).is_err());
    assert_eq!(w.contract.get_escrow_status(4), refused(Error::EscrowNotFound));
    assert!(matches!(
        w.contract.get_milestone(4, 0),
        Err(Failure::Refused(Error::EscrowNotFound))
    ));
}

#[test]
fn status_and_milestone_queries() {
    let (mut w, _, renter, host, asset) = setup();
    let id = w.create_escrow(renter, host, asset, &vec![term("a", 3, 1), term("b", 4, 2)], false);
    assert_eq!(w.contract.get_escrow_status(id), Ok(EscrowStatus::Created));
    let m = w.contract.get_milestone(id, 1).unwrap();
    assert_eq!((m.amount, m.auto_release_offset), (4, 2));
    assert_eq!(m.description, text("b"));
    assert!(matches!(
        w.contract.get_milestone(id, 2),
        Err(Failure::Refused(Error::InvalidMilestone))
    ));
}

#[test]
fn milestone_updates_keep_the_order_and_the_total() {
    let (mut w, _, renter, host, asset) = setup();
    let terms = vec![term("a", 3, 10), term("b", 4, 20), term("c", 5, 30)];
    let id = w.create_escrow(renter, host, asset, &terms, false);
    let c = &mut w.contract;
    assert_eq!(c.update_milestone(host, id, 1, text("B"), 9, 15), refused(Error::NotAuthorized));
    assert_eq!(c.update_milestone(renter, id, 1, text("B"), 0, 15), refused(Error::InvalidAmount));
    assert_eq!(
        c.update_milestone(renter, id, 1, text(&"B".repeat(513)), 9, 15),
        refused(Error::StringTooLong)
    );
    assert_eq!(
        c.update_milestone(renter, id, 3, text("B"), 9, 15),
        refused(Error::InvalidMilestone)
    );
    assert_eq!(
        c.update_milestone(renter, id, 1, text("B"), 9, 9),
        refused(Error::NonChronologicalMilestones)
    );
    assert_eq!(
        c.update_milestone(renter, id, 1, text("B"), 9, 31),
        refused(Error::NonChronologicalMilestones)
    );
    assert_eq!(
        c.update_milestone(renter, id, 1, text("B"), i128::MAX, 15),
        Err(Failure::Aborted)
    );
    assert_eq!(c.update_milestone(renter, id, 1, text("B"), 9, 30), Ok(()));
    let e = w.escrow(id);
    assert_eq!(e.total_amount, 17);
    assert_eq!(e.milestones[1].description, text("B"));
    assert_eq!(e.milestones[1].auto_release_offset, 30);
    assert_eq!(e.milestones.len(), 3);
}

#[test]
fn removal_and_addition_check_their_inputs() {
    let (mut w, _, renter, host, asset) = setup();
    let id = w.create_escrow(renter, host, asset, &vec![term("a", 3, 10), term("b", 4, 20)], false);
    let c = &mut w.contract;
    assert_eq!(c.remove_milestone(renter, id, 2), refused(Error::InvalidMilestone));
    assert_eq!(c.remove_milestone(host, id, 0), refused(Error::NotAuthorized));
    assert_eq!(c.add_milestone(renter, id, text("c"), 0, 20), refused(Error::InvalidAmount));
    assert_eq!(
        c.add_milestone(renter, id, text(&"c".repeat(513)), 1, 20),
        refused(Error::StringTooLong)
    );
    assert_eq!(c.add_milestone(renter, id, text("c"), i128::MAX, 20), Err(Failure::Aborted));
    assert_eq!(c.add_milestone(renter, id, text("c"), 1, 20), Ok(()));
    assert_eq!(c.remove_milestone(renter, id, 1), Ok(()));
    assert_eq!(w.escrow(id).total_amount, 4);
}

#[test]
fn every_edit_takes_an_acceptance_back() {
    for edit in 0..3 {
        let (mut w, _, renter, host, asset) = setup();
        let terms = vec![term("a", 3, 10), term("b", 4, 20)];
        let id = w.create_escrow(renter, host, asset, &terms, true);
        assert!(!w.escrow(id).host_accepted);
        assert_eq!(w.contract.accept_escrow(host, id), Ok(()));
        assert!(w.escrow(id).host_accepted);
        let r = match edit {
            0 => w.contract.add_milestone(renter, id, text("c"), 1, 20),
            1 => w.contract.remove_milestone(renter, id, 0),
            _ => w.contract.update_milestone(renter, id, 0, text("c"), 1, 10),
        };
        assert_eq!(r, Ok(()));
        assert!(!w.escrow(id).host_accepted);
        assert_eq!(
            w.contract.deposit(renter, id, 0),
            refused(Error::HostAcceptancePending)
        );
        assert_eq!(w.contract.accept_escrow(host, id), Ok(()));
        w.deposit(renter, id);
        assert_eq!(w.status(id), EscrowStatus::Active);
    }
}

#[test]
fn edits_of_an_ungated_escrow_need_no_acceptance() {
    let (mut w, _, renter, host, asset) = setup();
    let id = w.create_escrow(renter, host, asset, &vec![term("a", 3, 10)], false);
    assert_eq!(w.contract.add_milestone(renter, id, text("b"), 1, 10), Ok(()));
    assert!(w.escrow(id).host_accepted);
    w.deposit(renter, id);
}

#[test]
fn pause_blocks_funding_too() {
    let (mut w, admin, renter, host, asset) = setup();
    let id = w.create_escrow(renter, host, asset, &vec![term("a", 3, 10)], false);
    assert_eq!(w.contract.set_paused(admin, true), Ok(()));
    assert_eq!(w.contract.deposit(renter, id, 0), refused(Error::ContractPaused));
    assert_eq!(w.contract.cancel_escrow(renter, id), Ok(()));
    assert_eq!(w.contract.set_paused(admin, false), Ok(()));
    assert!(!w.contract.is_paused());
}

#[test]
fn deposit_aborts_where_a_deadline_is_out_of_range() {
    let (mut w, _, renter, host, asset) = setup();
    let id = w.create_escrow(renter, host, asset, &vec![term("a", 3, u64::MAX)], false);
    assert_eq!(w.contract.deposit(renter, id, 1), Err(Failure::Aborted));
    w.deposit(renter, id);
    assert_eq!(w.escrow(id).milestones[0].auto_release_at, u64::MAX);
}

#[test]
fn expiry_opens_exactly_at_the_end_of_the_window() {
    let (mut w, _, renter, host, asset) = setup();
    w.now = 50;
    let id = w.create_escrow(renter, host, asset, &vec![term("a", 3, 0)], false);
    let end = 50 + UNFUNDED_EXPIRY_WINDOW;
    assert_eq!(end, 2_592_050);
    assert_eq!(w.contract.expire_unfunded_escrow(id, end - 1), refused(Error::NotYetExpired));
    assert_eq!(w.contract.expire_unfunded_escrow(id, end), Ok(()));
    assert_eq!(w.events().last(), Some(&Event::Expired { id }));

    w.now = u64::MAX;
    let late = w.create_escrow(renter, host, asset, &vec![term("a", 3, 0)], false);
    assert_eq!(w.contract.expire_unfunded_escrow(late, u64::MAX), Err(Failure::Aborted));
}

#[test]
fn auto_release_opens_exactly_at_the_deadline() {
    let (mut w, _, renter, host, asset) = setup();
    w.now = 100;
    let id = w.create_escrow(renter, host, asset, &vec![term("a", 3, 10), term("b", 4, 10)], false);
    w.deposit(renter, id);
    assert_eq!(w.contract.check_auto_release(id, 0, 109), refused(Error::TooEarly));
    assert_eq!(w.contract.check_auto_release(id, 2, 110), refused(Error::InvalidMilestone));
    let r = w.contract.check_auto_release(id, 0, 110);
    w.done(r);
    assert_eq!(w.balance(asset, host), 3);
    assert_eq!(w.escrow(id).milestones[0].released_at, 110);
    assert_eq!(w.contract.check_auto_release(id, 0, 110), refused(Error::AlreadyReleased));
    assert_eq!(w.contract.confirm_milestone(renter, id, 0, 110), refused(Error::AlreadyReleased));
    assert_eq!(w.contract.confirm_milestone(renter, id, 2, 110), refused(Error::InvalidMilestone));
    assert_eq!(w.contract.confirm_milestone(host, id, 1, 110), refused(Error::NotAuthorized));
    assert_eq!(w.status(id), EscrowStatus::Active);
}

#[test]
fn deadline_extensions_are_bounded() {
    let (mut w, _, renter, host, asset) = setup();
    let terms = vec![term("a", 3, 10), term("b", 4, u64::MAX - 5)];
    let id = w.create_escrow(renter, host, asset, &terms, false);
    let year = MAX_DEADLINE_EXTENSION_SECONDS;
    assert_eq!(year, 31_536_000);
    assert_eq!(
        w.contract.extend_milestone_deadline(renter, id, 0, 1),
        refused(Error::InvalidState)
    );
    w.deposit(renter, id);
    let c = &mut w.contract;
    assert_eq!(c.extend_milestone_deadline(host, id, 0, 1), refused(Error::NotAuthorized));
    assert_eq!(c.extend_milestone_deadline(renter, id, 0, 0), refused(Error::InvalidAmount));
    assert_eq!(c.extend_milestone_deadline(renter, id, 0, year + 1), refused(Error::InvalidAmount));
    assert_eq!(c.extend_milestone_deadline(renter, id, 9, 1), refused(Error::InvalidMilestone));
    assert_eq!(c.extend_milestone_deadline(renter, id, 1, 6), refused(Error::InvalidAmount));
    assert_eq!(c.extend_milestone_deadline(renter, id, 1, 5), Ok(()));
    assert_eq!(c.extend_milestone_deadline(renter, id, 0, year), Ok(()));
    assert_eq!(w.escrow(id).milestones[0].auto_release_at, 10 + year);
    w.confirm_milestone(renter, id, 0);
    assert_eq!(
        w.contract.extend_milestone_deadline(renter, id, 0, 1),
        refused(Error::AlreadyReleased)
    );
}

#[test]
fn confirming_all_is_confirming_each() {
    let terms = vec![term("a", 30, 1), term("b", 40, 2), term("c", 50, 3)];
    let (mut all, admin, renter, host, asset) = setup();
    let treasury = all.generate();
    all.set_fee_config(admin, 1000, treasury);
    let id = all.create_escrow(renter, host, asset, &terms, false);
    all.deposit(renter, id);
    let (mut each, _, _, _, _) = setup();
    each.generate();
    each.set_fee_config(admin, 1000, treasury);
    each.create_escrow(renter, host, asset, &terms, false);
    each.deposit(renter, id);

    let r = all.contract.confirm_all_milestones(renter, id, 7);
    all.done(r);
    for i in 0..3 {
        let r = each.contract.confirm_milestone(renter, id, i, 7);
        each.done(r);
    }

    let moves = |w: &World| -> Vec<Effect> {
        w.contract
            .effects
            .iter()
            .copied()
            .filter(|e| !matches!(e, Effect::RequireAuth { .. }))
            .collect()
    };
    assert_eq!(moves(&all), moves(&each));
    assert_eq!(all.balance(asset, host), 108);
    assert_eq!(all.balance(asset, treasury), 12);
    assert_eq!(all.contract.get_reputation(host), each.contract.get_reputation(host));
    for i in 0..3 {
        assert_eq!(all.escrow(id).milestones[i].released_at, 7);
        assert_eq!(each.escrow(id).milestones[i].released_at, 7);
    }
    // Where nothing is pending, nothing happens.
    let before = all.contract.effects.len();
    assert_eq!(all.contract.confirm_all_milestones(renter, id, 9), Ok(()));
    assert_eq!(all.contract.effects[before..], [Effect::RequireAuth { who: renter }]);
}

#[test]
fn confirming_all_of_a_proposal_is_refused() {
    let (mut w, _, renter, host, asset) = setup();
    let id = w.create_escrow(renter, host, asset, &vec![term("a", 3, 10)], false);
    assert_eq!(w.contract.confirm_all_milestones(renter, id, 0), refused(Error::InvalidState));
    assert_eq!(w.contract.confirm_all_milestones(host, id, 0), refused(Error::NotAuthorized));
}

#[test]
fn the_fee_rounds_down_and_spares_exempt_recipients() {
    let (mut w, admin, renter, host, asset) = setup();
    let treasury = w.generate();
    w.set_fee_config(admin, 333, treasury);
    let terms = vec![term("a", 100, 1), term("b", 29, 1), term("c", 100, 1)];
    let id = w.create_escrow(renter, host, asset, &terms, false);
    w.deposit(renter, id);
    w.confirm_milestone(renter, id, 0);
    // 100 * 333 / 10000 = 3.33
    assert_eq!(w.balance(asset, treasury), 3);
    assert_eq!(w.balance(asset, host), 97);
    // 29 * 333 / 10000 = 0.9657: no fee is taken.
    let before = w.contract.effects.len();
    w.confirm_milestone(renter, id, 1);
    assert_eq!(
        w.contract.effects[before + 1],
        Effect::Pay { asset, to: host, amount: 29 }
    );
    assert_eq!(w.contract.set_fee_exempt(renter, host, true), refused(Error::NotAuthorized));
    assert_eq!(w.contract.set_fee_exempt(admin, host, true), Ok(()));
    assert!(w.contract.is_fee_exempt(host));
    w.confirm_milestone(renter, id, 2);
    assert_eq!(w.balance(asset, host), 97 + 29 + 100);
    assert_eq!(w.balance(asset, treasury), 3);
    assert_eq!(w.contract.set_fee_exempt(admin, host, false), Ok(()));
    assert!(!w.contract.is_fee_exempt(host));
}

#[test]
fn a_fee_out_of_range_aborts_the_release() {
    let (mut w, admin, renter, host, asset) = setup();
    let treasury = w.generate();
    let terms = vec![term("a", i128::MAX / 2, 1)];
    let id = w.create_escrow(renter, host, asset, &terms, false);
    assert_eq!(w.contract.deposit(renter, id, 0), Ok(()));
    assert_eq!(w.contract.set_fee_config(admin, 500, treasury), Ok(()));
    assert_eq!(w.contract.confirm_milestone(renter, id, 0, 0), Err(Failure::Aborted));
    assert_eq!(w.contract.confirm_all_milestones(renter, id, 0), Err(Failure::Aborted));
    assert_eq!(w.status(id), EscrowStatus::Active);
    assert_eq!(w.contract.set_fee_config(admin, 0, treasury), Ok(()));
    assert_eq!(w.contract.confirm_milestone(renter, id, 0, 0), Ok(()));
}

#[test]
fn clean_completions_raise_both_reputations() {
    let (mut w, _, renter, host, asset) = setup();
    let id = w.create_escrow(renter, host, asset, &vec![term("a", 3, 1), term("b", 3, 1)], false);
    w.deposit(renter, id);
    w.confirm_milestone(renter, id, 0);
    assert_eq!(w.contract.get_reputation(renter), 0);
    w.confirm_milestone(renter, id, 1);
    assert_eq!(w.contract.get_reputation(renter), 1);
    assert_eq!(w.contract.get_reputation(host), 1);
}

#[test]
fn a_disputed_escrow_earns_no_completion_bonus() {
    let (mut w, _, renter, host, asset) = setup();
    for _ in 0..3 {
        w.new_juror(asset);
    }
    let id = w.create_escrow(renter, host, asset, &vec![term("a", 30, 1), term("b", 3, 1)], false);
    w.deposit(renter, id);
    w.raise_dispute(renter, id, 0, "proof");
    assert!(w.escrow(id).ever_disputed);
    assert_eq!(w.escrow(id).dispute_id, Some(0));
    for j in w.dispute(id, 0).jurors.clone() {
        w.vote_dispute(j, id, 0, false);
    }
    w.resolve_dispute(id, 0);
    assert_eq!(w.status(id), EscrowStatus::Active);
    assert_eq!(w.escrow(id).dispute_id, None);
    assert_eq!(w.contract.get_reputation(host), 2);
    assert_eq!(w.contract.get_reputation(renter), -1);
    w.confirm_milestone(renter, id, 1);
    assert_eq!(w.status(id), EscrowStatus::Completed);
    assert_eq!(w.contract.get_reputation(host), 2);
    assert_eq!(w.contract.get_reputation(renter), -1);
}

#[test]
fn release_times_tell_payouts_from_refunds() {
    let (mut w, _, renter, host, asset) = setup();
    let id = w.create_escrow(renter, host, asset, &vec![term("a", 3, 1), term("b", 4, 1)], false);
    w.deposit(renter, id);
    w.now = 77;
    w.confirm_milestone(renter, id, 0);
    let before = w.contract.effects.len();
    let r = w.contract.mutual_cancel(renter, host, id);
    w.done(r);
    assert_eq!(
        w.contract.effects[before..],
        [
            Effect::RequireAuth { who: renter },
            Effect::RequireAuth { who: host },
            Effect::Pay { asset, to: renter, amount: 4 },
            Effect::Publish { event: Event::Mutual { id, refund: 4 } },
        ]
    );
    let e = w.escrow(id);
    assert_eq!((e.milestones[0].released, e.milestones[0].released_at), (true, 77));
    assert_eq!((e.milestones[1].released, e.milestones[1].released_at), (true, 0));
    // It is over: nothing goes through any more.
    assert_eq!(w.contract.confirm_milestone(renter, id, 1, 78), refused(Error::InvalidState));
    assert_eq!(w.contract.cancel_escrow(renter, id), refused(Error::InvalidState));
    assert_eq!(w.contract.mutual_cancel(host, renter, id), refused(Error::NotAuthorized));
}

#[test]
fn a_verdict_for_the_renter_is_no_release_to_the_host() {
    let (mut w, _, renter, host, asset, id, jurors) = setup_disputable(50);
    w.now = 5;
    w.raise_dispute(renter, id, 0, "proof");
    for j in jurors {
        w.vote_dispute(j, id, 0, true);
    }
    let paid_in = w.balance(asset, renter);
    w.now = 9;
    w.resolve_dispute(id, 0);
    assert_eq!(w.balance(asset, renter), paid_in + 50);
    assert_eq!(w.balance(asset, host), 0);
    assert_eq!(w.escrow(id).milestones[0].released_at, 0);
    assert_eq!(w.dispute(id, 0).resolved_at, 9);
    assert_eq!(
        w.events()[w.events().len() - 2..],
        [
            Event::Resolved { id, milestone_index: 0, recipient: renter },
            Event::Complete { id },
        ]
    );
}

#[test]
fn disputes_are_opened_by_parties_on_pending_funded_milestones() {
    let (mut w, _, renter, host, asset) = setup();
    let terms = vec![term("a", 3, 1), term("b", 4, 1)];
    let id = w.create_escrow(renter, host, asset, &terms, false);
    let stranger = w.generate();
    let raise = |w: &mut World, who: Address, i: u32| {
        w.contract.raise_dispute(who, id, i, text("proof"), 0)
    };
    assert_eq!(raise(&mut w, stranger, 0), refused(Error::NotAuthorized));
    assert_eq!(raise(&mut w, renter, 2), refused(Error::InvalidMilestone));
    // A proposal holds nothing to dispute.
    assert_eq!(raise(&mut w, renter, 0), refused(Error::InvalidState));
    w.deposit(renter, id);
    assert_eq!(raise(&mut w, renter, 0), refused(Error::NoJurorsAvailable));
    w.mint(asset, host, 500_0000000);
    w.register_juror(host, asset, 100_0000000);
    assert_eq!(raise(&mut w, renter, 0), refused(Error::NoJurorsAvailable));
    w.new_juror(asset);
    w.confirm_milestone(renter, id, 1);
    assert_eq!(raise(&mut w, renter, 1), refused(Error::AlreadyReleased));
    assert_eq!(raise(&mut w, renter, 0), Ok(id));
    assert_eq!(raise(&mut w, renter, 0), refused(Error::EscrowDisputed));
    assert_eq!(w.contract.check_auto_release(id, 0, 999), refused(Error::EscrowDisputed));
    assert_eq!(w.contract.confirm_milestone(renter, id, 0, 999), refused(Error::InvalidState));
}

#[test]
fn raising_aborts_where_the_deadline_is_out_of_range() {
    let (mut w, _, renter, _, _, id, _) = setup_disputable(50);
    let r = w.contract.raise_dispute(renter, id, 0, text("proof"), u64::MAX);
    assert_eq!(r, Err(Failure::Aborted));
    assert_eq!(w.status(id), EscrowStatus::Active);
}

#[test]
fn voting_is_for_assigned_jurors_once_each() {
    let (mut w, _, renter, host, asset, id, jurors) = setup_disputable(50);
    let j0 = jurors[0];
    assert_eq!(w.contract.vote_dispute(j0, id, 0, true), refused(Error::NoDispute));
    assert_eq!(w.contract.resolve_dispute(id, 0, 0), refused(Error::NoDispute));
    assert_eq!(w.contract.force_resolve_stale_dispute(id, 0, 0), refused(Error::NoDispute));
    w.raise_dispute(renter, id, 0, "proof");
    let late = w.new_juror(asset);
    assert_eq!(w.contract.vote_dispute(late, id, 0, true), refused(Error::NotAJuror));
    assert_eq!(w.contract.vote_dispute(host, id, 0, true), refused(Error::NotAJuror));
    w.vote_dispute(j0, id, 0, true);
    assert_eq!(w.contract.vote_dispute(j0, id, 0, true), refused(Error::AlreadyVoted));
    assert_eq!(w.contract.vote_dispute(j0, id, 0, false), refused(Error::AlreadyVoted));
    w.vote_dispute(jurors[1], id, 0, true);
    assert_eq!(w.contract.resolve_dispute(id, 0, 0), refused(Error::VotingIncomplete));
    w.vote_dispute(jurors[2], id, 0, false);
    assert_eq!(w.dispute(id, 0).votes_for_renter, [jurors[0], jurors[1]]);
    assert_eq!(w.dispute(id, 0).votes_for_host, [jurors[2]]);
    w.resolve_dispute(id, 0);
    assert_eq!(w.dispute(id, 0).outcome, DisputeOutcome::RenterWins);
    assert_eq!(w.contract.resolve_dispute(id, 0, 0), refused(Error::AlreadyResolved));
    assert_eq!(
        w.contract.force_resolve_stale_dispute(id, 0, u64::MAX),
        refused(Error::AlreadyResolved)
    );
    assert_eq!(w.contract.vote_dispute(j0, id, 0, true), refused(Error::AlreadyResolved));
    assert_eq!(
        w.contract.add_dispute_evidence(renter, id, 0, text("more")),
        refused(Error::AlreadyResolved)
    );
    assert_eq!(
        w.contract.extend_dispute_deadline(renter, host, id, 0, 1),
        refused(Error::AlreadyResolved)
    );
}

#[test]
fn both_parties_add_evidence_up_to_the_cap() {
    let (mut w, _, renter, host, _, id, _) = setup_disputable(50);
    assert_eq!(
        w.contract.add_dispute_evidence(renter, id, 0, text("early")),
        refused(Error::NoDispute)
    );
    w.raise_dispute(renter, id, 0, "proof");
    let stranger = w.generate();
    let add = |w: &mut World, who: Address, what: &str| {
        w.contract.add_dispute_evidence(who, id, 0, text(what))
    };
    assert_eq!(add(&mut w, stranger, "x"), refused(Error::NotAuthorized));
    assert_eq!(add(&mut w, host, ""), refused(Error::MissingEvidence));
    assert_eq!(add(&mut w, host, &"x".repeat(513)), refused(Error::StringTooLong));
    for i in 0..10 {
        let who = if i % 2 == 0 { host } else { renter };
        assert_eq!(add(&mut w, who, &format!("item {}", i)), Ok(()));
    }
    assert_eq!(add(&mut w, host, "one more"), refused(Error::TooMuchEvidence));
    let d = w.dispute(id, 0);
    assert_eq!(d.evidence_uri, text("proof"));
    assert_eq!(d.additional_evidence.len(), 10);
    assert_eq!(d.additional_evidence[9], text("item 9"));
}

#[test]
fn both_parties_extend_the_voting_deadline() {
    let (mut w, _, renter, host, _, id, _) = setup_disputable(50);
    assert_eq!(
        w.contract.extend_dispute_deadline(renter, host, id, 0, 5),
        refused(Error::NoDispute)
    );
    w.now = 1_000;
    w.raise_dispute(renter, id, 0, "proof");
    let deadline = 1_000 + DEFAULT_DISPUTE_VOTING_WINDOW;
    assert_eq!(w.dispute(id, 0).voting_deadline, deadline);
    let c = &mut w.contract;
    assert_eq!(c.extend_dispute_deadline(host, renter, id, 0, 5), refused(Error::NotAuthorized));
    assert_eq!(c.extend_dispute_deadline(renter, host, id, 0, 0), refused(Error::InvalidAmount));
    assert_eq!(
        c.extend_dispute_deadline(renter, host, id, 0, MAX_DEADLINE_EXTENSION_SECONDS + 1),
        refused(Error::InvalidAmount)
    );
    let before = c.effects.len();
    assert_eq!(c.extend_dispute_deadline(renter, host, id, 0, 5), Ok(()));
    assert_eq!(
        c.effects[before..],
        [Effect::RequireAuth { who: renter }, Effect::RequireAuth { who: host }]
    );
    assert_eq!(w.dispute(id, 0).voting_deadline, deadline + 5);
    assert_eq!(
        w.contract.force_resolve_stale_dispute(id, 0, deadline + 4),
        refused(Error::TooEarly)
    );
    assert_eq!(w.contract.force_resolve_stale_dispute(id, 0, deadline + 5), Ok(()));
}

#[test]
fn a_full_vote_cannot_be_split() {
    let (mut w, _, renter, host, asset, id, jurors) = setup_disputable(100);
    w.raise_dispute(renter, id, 0, "proof");
    let deadline = w.dispute(id, 0).voting_deadline;
    w.vote_dispute(jurors[0], id, 0, true);
    w.vote_dispute(jurors[1], id, 0, true);
    // The last vote may come after the deadline.
    w.now = deadline + 10;
    w.vote_dispute(jurors[2], id, 0, false);
    let before = w.contract.effects.len();
    assert_eq!(
        w.contract.force_resolve_stale_dispute(id, 0, deadline - 1),
        refused(Error::TooEarly)
    );
    assert_eq!(
        w.contract.force_resolve_stale_dispute(id, 0, deadline),
        refused(Error::InvalidState)
    );
    assert_eq!(
        w.contract.force_resolve_stale_dispute(id, 0, u64::MAX),
        refused(Error::InvalidState)
    );
    assert_eq!(w.contract.effects.len(), before);
    assert_eq!(w.status(id), EscrowStatus::Disputed);
    assert!(!w.dispute(id, 0).resolved);

    // The verdict stands.
    let paid_in = w.balance(asset, renter);
    w.resolve_dispute(id, 0);
    assert_eq!(w.dispute(id, 0).outcome, DisputeOutcome::RenterWins);
    assert_eq!(w.balance(asset, renter), paid_in + 100);
    assert_eq!(w.balance(asset, host), 0);
    assert_eq!(w.contract.get_reputation(renter), 2);
    assert_eq!(w.stake(jurors[2]), 90_0000000);
}

#[test]
fn one_missing_vote_allows_a_split() {
    let (mut w, _, renter, host, asset, id, jurors) = setup_disputable(100);
    w.raise_dispute(renter, id, 0, "proof");
    w.vote_dispute(jurors[0], id, 0, true);
    w.vote_dispute(jurors[1], id, 0, true);
    let r = w.contract.force_resolve_stale_dispute(id, 0, DEFAULT_DISPUTE_VOTING_WINDOW);
    w.done(r);
    assert_eq!(w.dispute(id, 0).outcome, DisputeOutcome::Split);
    assert_eq!(w.balance(asset, host), 50);
}

#[test]
fn a_split_gives_the_odd_unit_to_the_host_and_blames_nobody() {
    let (mut w, admin, renter, host, asset, id, jurors) = setup_disputable(107);
    let treasury = w.generate();
    w.set_fee_config(admin, 1000, treasury);
    w.raise_dispute(renter, id, 0, "proof");
    w.vote_dispute(jurors[0], id, 0, true);
    let before = w.contract.effects.len();
    let now = DEFAULT_DISPUTE_VOTING_WINDOW;
    let r = w.contract.force_resolve_stale_dispute(id, 0, now);
    w.done(r);
    assert_eq!(
        w.contract.effects[before..],
        [
            Effect::Pay { asset, to: treasury, amount: 5 },
            Effect::Pay { asset, to: renter, amount: 48 },
            Effect::Pay { asset, to: treasury, amount: 5 },
            Effect::Pay { asset, to: host, amount: 49 },
            Effect::Publish { event: Event::Stale { id, milestone_index: 0 } },
            Effect::Publish { event: Event::Complete { id } },
        ]
    );
    for j in jurors {
        assert_eq!(w.stake(j), 100_0000000);
        assert_eq!(w.contract.get_active_dispute_count(j), 0);
    }
    assert_eq!(w.contract.get_reputation(renter), 0);
    assert_eq!(w.contract.get_reputation(host), 0);
    assert_eq!(w.escrow(id).milestones[0].released_at, now);
}

#[test]
fn arbitration_and_protocol_fees_add_up() {
    let (mut w, admin, renter, host, asset) = setup();
    let treasury = w.generate();
    w.set_fee_config(admin, 1000, treasury);
    let r = w.contract.set_juror_params(admin, 100_0000000, 3, 1000, i32::MIN, 250);
    w.done(r);
    let jurors = vec![w.new_juror(asset), w.new_juror(asset), w.new_juror(asset)];
    let id = w.create_escrow(renter, host, asset, &vec![term("a", 4_000, 9)], false);
    w.deposit(renter, id);
    w.raise_dispute(renter, id, 0, "proof");
    w.vote_dispute(jurors[0], id, 0, false);
    w.vote_dispute(jurors[1], id, 0, false);
    w.vote_dispute(jurors[2], id, 0, true);
    w.resolve_dispute(id, 0);
    // 2.5% of 4000 is 100; 33 for each juror, win or lose, and 1 stays behind.
    for j in &jurors {
        assert_eq!(w.balance(asset, *j), 100_0000000 + 33);
    }
    // 10% of the remaining 3900 goes to the treasury.
    assert_eq!(w.balance(asset, treasury), 390);
    assert_eq!(w.balance(asset, host), 3_510);
    // What the contract holds covers the stakes, with the remainder on top.
    let stakes: i128 = jurors.iter().map(|j| w.stake(*j)).sum();
    assert_eq!(stakes, 300_0000000);
    assert_eq!(w.balance(asset, CONTRACT), stakes + 1);
}

#[test]
fn rules_of_an_open_dispute_are_fixed() {
    let (mut w, admin, renter, _, asset, id, jurors) = setup_disputable(1_000);
    w.raise_dispute(renter, id, 0, "proof");
    let r = w.contract.set_juror_params(admin, 1, 1, 5000, 0, 1000);
    w.done(r);
    assert_eq!(w.contract.set_stake_weighted_voting(admin, true), Ok(()));
    assert!(w.contract.get_stake_weighted_voting());
    assert_eq!(w.contract.set_dispute_voting_window(admin, 3_600), Ok(()));
    let d = w.dispute(id, 0);
    assert_eq!((d.slash_bps, d.arbitration_fee_bps), (1000, 0));
    assert!(!d.stake_weighted);
    assert_eq!(d.voting_deadline, DEFAULT_DISPUTE_VOTING_WINDOW);
    w.mint(asset, jurors[2], 1_000_0000000);
    w.register_juror(jurors[2], asset, 1_000_0000000);
    w.vote_dispute(jurors[0], id, 0, true);
    w.vote_dispute(jurors[1], id, 0, true);
    w.vote_dispute(jurors[2], id, 0, false);
    w.resolve_dispute(id, 0);
    assert_eq!(w.dispute(id, 0).outcome, DisputeOutcome::RenterWins);
    // The loser is slashed by a tenth of the stake held at the resolution.
    assert_eq!(w.stake(jurors[2]), 990_0000000);
    assert_eq!(w.stake(jurors[0]), 155_0000000);
}

#[test]
fn votes_weigh_by_stake_where_the_dispute_says_so() {
    let (mut w, admin, renter, _, asset, id, jurors) = setup_disputable(1_000);
    assert_eq!(w.contract.set_stake_weighted_voting(admin, true), Ok(()));
    w.mint(asset, jurors[2], 150_0000000);
    w.register_juror(jurors[2], asset, 150_0000000);
    assert_eq!(w.stake(jurors[2]), 250_0000000);
    w.raise_dispute(renter, id, 0, "proof");
    assert!(w.dispute(id, 0).stake_weighted);
    // 200 for the host, 250 for the renter.
    w.vote_dispute(jurors[0], id, 0, false);
    w.vote_dispute(jurors[1], id, 0, false);
    w.vote_dispute(jurors[2], id, 0, true);
    w.resolve_dispute(id, 0);
    assert_eq!(w.dispute(id, 0).outcome, DisputeOutcome::RenterWins);
    assert_eq!(w.stake(jurors[0]), 90_0000000);
    assert_eq!(w.stake(jurors[1]), 90_0000000);
    assert_eq!(w.stake(jurors[2]), 270_0000000);
}

#[test]
fn a_tie_goes_to_the_host() {
    let (mut w, _, renter, host, asset) = setup();
    let a = w.new_juror(asset);
    let b = w.new_juror(asset);
    let id = w.create_escrow(renter, host, asset, &vec![term("a", 1_000, 9)], false);
    w.deposit(renter, id);
    w.raise_dispute(renter, id, 0, "proof");
    // Fewer jurors than the configured size sit on the jury.
    assert_eq!(w.dispute(id, 0).jurors, [a, b]);
    w.vote_dispute(a, id, 0, true);
    w.vote_dispute(b, id, 0, false);
    w.resolve_dispute(id, 0);
    assert_eq!(w.dispute(id, 0).outcome, DisputeOutcome::HostWins);
    assert_eq!(w.balance(asset, host), 1_000);
}

#[test]
fn the_jury_rotates_with_the_escrow_id() {
    let (mut w, _, renter, host, asset) = setup();
    let j: Vec<Address> = (0..5).map(|_| w.new_juror(asset)).collect();
    let mut juries = Vec::new();
    for _ in 0..7 {
        let id = w.create_escrow(renter, host, asset, &vec![term("a", 10, 9)], false);
        w.deposit(renter, id);
        w.raise_dispute(host, id, 0, "proof");
        juries.push(w.dispute(id, 0).jurors.clone());
    }
    assert_eq!(juries[0], [j[0], j[1], j[2]]);
    assert_eq!(juries[1], [j[1], j[2], j[3]]);
    assert_eq!(juries[3], [j[3], j[4], j[0]]);
    assert_eq!(juries[4], [j[4], j[0], j[1]]);
    assert_eq!(juries[5], juries[0]);
    assert_eq!(w.contract.get_active_dispute_count(j[0]), 4);
    assert_eq!(w.contract.get_active_dispute_count(j[1]), 5);
}

#[test]
fn stakes_are_topped_up_and_withdrawn_in_full() {
    let (mut w, admin, _, _, asset) = setup();
    let juror = w.generate();
    w.mint(asset, juror, 500_0000000);
    assert_eq!(w.contract.withdraw_juror_stake(juror), refused(Error::NotAJuror));
    assert_eq!(
        w.contract.register_juror(juror, asset, 99_9999999),
        refused(Error::InsufficientStake)
    );
    w.register_juror(juror, asset, 100_0000000);
    w.register_juror(juror, asset, 150_0000000);
    assert_eq!(
        w.contract.get_juror_stake(juror),
        Some(JurorStakeInfo { asset, amount: 250_0000000 })
    );
    assert_eq!(w.contract.juror_pool, [juror]);
    assert_eq!(
        w.contract.register_juror(juror, asset, i128::MAX),
        Err(Failure::Aborted)
    );
    let before = w.contract.effects.len();
    w.withdraw_juror_stake(juror);
    assert_eq!(
        w.contract.effects[before..],
        [
            Effect::RequireAuth { who: juror },
            Effect::Pay { asset, to: juror, amount: 250_0000000 },
            Effect::Publish { event: Event::JurorLeft { juror, amount: 250_0000000 } },
        ]
    );
    assert_eq!(w.balance(asset, juror), 500_0000000);
    assert!(w.contract.juror_pool.is_empty());
    w.set_juror_params(admin, DEFAULT_MIN_JUROR_STAKE, 3, DEFAULT_JUROR_SLASH_BPS, 1);
    assert_eq!(
        w.contract.register_juror(juror, asset, 100_0000000),
        refused(Error::ReputationTooLow)
    );
}

#[test]
fn rewards_stay_within_an_asset_and_remainders_stay_behind() {
    let (mut w, admin, renter, host, gold) = setup();
    let silver = w.generate();
    w.set_juror_params(admin, 1, 7, 5000, i32::MIN);
    let mut juror = |w: &mut World, asset: Address, stake: i128| {
        let j = w.generate();
        w.mint(asset, j, stake);
        w.register_juror(j, asset, stake);
        j
    };
    let winners = vec![
        juror(&mut w, gold, 10),
        juror(&mut w, gold, 20),
        juror(&mut w, gold, 30),
        juror(&mut w, silver, 40),
    ];
    let losers = vec![juror(&mut w, gold, 21), juror(&mut w, gold, 7), juror(&mut w, silver, 9)];
    let id = w.create_escrow(renter, host, gold, &vec![term("a", 1_000, 9)], false);
    w.deposit(renter, id);
    w.raise_dispute(renter, id, 0, "proof");
    for j in &winners {
        w.vote_dispute(*j, id, 0, false);
    }
    for j in &losers {
        w.vote_dispute(*j, id, 0, true);
    }
    w.resolve_dispute(id, 0);
    // Half of 21 and 7, rounded down, is 10 + 3 = 13: 4 for each of three.
    assert_eq!(w.stake(losers[0]), 11);
    assert_eq!(w.stake(losers[1]), 4);
    assert_eq!(w.stake(winners[0]), 14);
    assert_eq!(w.stake(winners[1]), 24);
    assert_eq!(w.stake(winners[2]), 34);
    // Half of 9, rounded down, is 4, for the one winner in silver.
    assert_eq!(w.stake(losers[2]), 5);
    assert_eq!(w.stake(winners[3]), 44);
    assert_eq!(w.balance(gold, CONTRACT), 11 + 4 + 14 + 24 + 34 + 1);
    assert_eq!(w.balance(silver, CONTRACT), 5 + 44);
    for j in winners.iter().chain(losers.iter()) {
        w.withdraw_juror_stake(*j);
    }
    assert_eq!(w.balance(gold, CONTRACT), 1);
    assert_eq!(w.balance(silver, CONTRACT), 0);
}

#[test]
fn the_contract_covers_what_it_owes_throughout() {
    let (mut w, admin, renter, host, asset) = setup();
    let treasury = w.generate();
    w.set_fee_config(admin, 777, treasury);
    let r = w.contract.set_juror_params(admin, 100_0000000, 3, 1234, i32::MIN, 321);
    w.done(r);
    let jurors: Vec<Address> = (0..4).map(|_| w.new_juror(asset)).collect();
    let owed = |w: &World| -> i128 {
        let mut total = 0;
        for e in w.contract.escrows.values() {
            if e.status == EscrowStatus::Active || e.status == EscrowStatus::Disputed {
                for m in &e.milestones {
                    if !m.released {
                        total += m.amount;
                    }
                }
            }
        }
        for info in w.contract.juror_stakes.values() {
            total += info.amount;
        }
        total
    };
    for round in 0..6u32 {
        let terms = vec![term("a", 1_001, 5), term("b", 2_003, 6), term("c", 3_007, 7)];
        let id = w.create_escrow(renter, host, asset, &terms, false);
        w.deposit(renter, id);
        assert!(w.balance(asset, CONTRACT) >= owed(&w));
        w.raise_dispute(host, id, 1, "proof");
        let jury = w.dispute(id, 1).jurors.clone();
        if round % 2 == 0 {
            for (n, j) in jury.iter().enumerate() {
                w.vote_dispute(*j, id, 1, (n as u32 + round) % 3 == 0);
            }
            w.resolve_dispute(id, 1);
        } else {
            w.now += DEFAULT_DISPUTE_VOTING_WINDOW;
            let r = w.contract.force_resolve_stale_dispute(id, 1, w.now);
            w.done(r);
        }
        assert!(w.balance(asset, CONTRACT) >= owed(&w));
        w.confirm_milestone(renter, id, 0);
        let r = w.contract.mutual_cancel(renter, host, id);
        w.done(r);
        assert!(w.balance(asset, CONTRACT) >= owed(&w));
    }
    for j in jurors {
        w.withdraw_juror_stake(j);
    }
    assert_eq!(owed(&w), 0);
    assert!(w.balance(asset, CONTRACT) >= 0);
}

#[test]
fn stored_records_are_tested_when_put_back() {
    let (w, _, _, _, _, id, _) = setup_disputable(50);
    let good = w.escrow(id).clone();
    assert!(good.is_sound());

    let mut c = EscrowContract::new();
    let mut bad = good.clone();
    bad.total_amount = 51;
    assert!(!c.restore_escrow(bad));
    let mut bad = good.clone();
    bad.host = bad.renter;
    assert!(!c.restore_escrow(bad));
    let mut bad = good.clone();
    bad.milestones.clear();
    bad.total_amount = 0;
    assert!(!c.restore_escrow(bad));
    assert!(c.get_escrow(id).is_err());
    assert!(c.restore_escrow(good));
    assert_eq!(c.get_escrow_status(id), Ok(EscrowStatus::Active));

    assert!(!c.restore_stake(5, JurorStakeInfo { asset: 1, amount: 0 }));
    assert!(c.restore_stake(5, JurorStakeInfo { asset: 1, amount: 3 }));
    assert_eq!(c.get_juror_stake(5), Some(JurorStakeInfo { asset: 1, amount: 3 }));
    assert!(!c.restore_pool(vec![5, 6, 5]));
    assert!(c.restore_pool(vec![5, 6]));
    assert_eq!(c.juror_pool, [5, 6]);

    let mut params = c.get_juror_params();
    params.jury_size = 2;
    assert!(!c.restore_juror_params(params));
    params.jury_size = 5;
    assert!(c.restore_juror_params(params));
    assert_eq!(c.get_juror_params().jury_size, 5);
    assert!(!c.restore_fee_config(FeeConfig { bps: 2001, treasury: 1 }));
    assert!(c.restore_fee_config(FeeConfig { bps: 2000, treasury: 1 }));
    assert_eq!(c.get_fee_config(), Some(FeeConfig { bps: 2000, treasury: 1 }));
}

#[test]
fn stored_disputes_are_tested_when_put_back() {
    let (mut w, _, renter, _, _, id, jurors) = setup_disputable(50);
    w.raise_dispute(renter, id, 0, "proof");
    w.vote_dispute(jurors[0], id, 0, true);
    let good = w.dispute(id, 0).clone();
    let mut c = EscrowContract::new();
    let mut bad = good.clone();
    bad.votes_for_host.push(jurors[0]);
    assert!(!c.restore_dispute(bad));
    let mut bad = good.clone();
    bad.votes_for_host.push(renter);
    assert!(!c.restore_dispute(bad));
    let mut bad = good.clone();
    bad.jurors.push(jurors[0]);
    assert!(!c.restore_dispute(bad));
    let mut bad = good.clone();
    bad.jurors.clear();
    bad.votes_for_renter.clear();
    assert!(!c.restore_dispute(bad));
    let mut bad = good.clone();
    bad.slash_bps = 5001;
    assert!(!c.restore_dispute(bad));
    assert!(c.get_dispute(id, 0).is_none());
    assert!(c.restore_dispute(good));
    assert_eq!(c.get_dispute(id, 0).unwrap().votes_for_renter, [jurors[0]]);
}
