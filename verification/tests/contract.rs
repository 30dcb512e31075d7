use escrow::params::{DEFAULT_JUROR_SLASH_BPS, DEFAULT_MIN_JUROR_STAKE};
use escrow::{
    Address, Dispute, DisputeOutcome, Effect, Escrow, EscrowContract, EscrowStatus, Event, Failure,
};
use std::collections::BTreeMap;

/// The contract's own account in the token ledger below.
const CONTRACT: Address = 0;

type Terms = Vec<(Vec<u8>, i128, u64)>;

/// A contract with a clock and a token ledger that carries out its effects.
/// Every signature is taken as given.
struct World {
    contract: EscrowContract,
    balances: BTreeMap<(Address, Address), i128>,
    carried_out: usize,
    now: u64,
    last_address: Address,
}

impl World {
    fn new() -> World {
        World {
            contract: EscrowContract::new(),
            balances: BTreeMap::new(),
            carried_out: 0,
            now: 0,
            last_address: CONTRACT,
        }
    }

    /// A new address.
    fn generate(&mut self) -> Address {
        self.last_address += 1;
        self.last_address
    }

    fn balance(&self, asset: Address, who: Address) -> i128 {
        *self.balances.get(&(asset, who)).unwrap_or(&0)
    }

    fn mint(&mut self, asset: Address, who: Address, amount: i128) {
        *self.balances.entry((asset, who)).or_insert(0) += amount;
    }

    fn transfer(&mut self, asset: Address, from: Address, to: Address, amount: i128) {
        assert!(amount >= 0);
        assert!(self.balance(asset, from) >= amount, "balance too low");
        self.mint(asset, from, -amount);
        self.mint(asset, to, amount);
    }

    /// Carries out what a call asked for, and panics where it failed.
    fn done<T>(&mut self, result: Result<T, Failure>) -> T {
        match result {
            Ok(value) => {
                while self.carried_out < self.contract.effects.len() {
                    match self.contract.effects[self.carried_out] {
                        Effect::Collect { asset, from, amount } => {
                            self.transfer(asset, from, CONTRACT, amount);
                        }
                        Effect::Pay { asset, to, amount } => {
                            self.transfer(asset, CONTRACT, to, amount);
                        }
                        Effect::RequireAuth { .. } | Effect::Publish { .. } => {}
                    }
                    self.carried_out += 1;
                }
                value
            }
            Err(Failure::Refused(e)) => panic!("Error(Contract, #{})", e.code()),
            Err(Failure::Aborted) => panic!("aborted"),
        }
    }

    fn initialize(&mut self, admin: Address) {
        let r = self.contract.initialize(admin);
        self.done(r)
    }

    fn set_fee_config(&mut self, admin: Address, bps: u32, treasury: Address) {
        let r = self.contract.set_fee_config(admin, bps, treasury);
        self.done(r)
    }

    /// Without an arbitration fee.
    fn set_juror_params(&mut self, admin: Address, stake: i128, size: u32, slash: u32, min: i32) {
        let r = self.contract.set_juror_params(admin, stake, size, slash, min, 0);
        self.done(r)
    }

    fn create_escrow(
        &mut self,
        renter: Address,
        host: Address,
        asset: Address,
        terms: &Terms,
        gated: bool,
    ) -> u32 {
        let r = self.contract.create_escrow(renter, host, asset, terms.clone(), gated, self.now);
        self.done(r)
    }

    fn deposit(&mut self, renter: Address, id: u32) {
        let r = self.contract.deposit(renter, id, self.now);
        self.done(r)
    }

    fn confirm_milestone(&mut self, renter: Address, id: u32, i: u32) {
        let r = self.contract.confirm_milestone(renter, id, i, self.now);
        self.done(r)
    }

    fn raise_dispute(&mut self, caller: Address, id: u32, i: u32, evidence: &str) -> u32 {
        let r = self.contract.raise_dispute(caller, id, i, text(evidence), self.now);
        self.done(r)
    }

    fn vote_dispute(&mut self, juror: Address, id: u32, i: u32, vote_for_renter: bool) {
        let r = self.contract.vote_dispute(juror, id, i, vote_for_renter);
        self.done(r)
    }

    fn resolve_dispute(&mut self, id: u32, i: u32) {
        let r = self.contract.resolve_dispute(id, i, self.now);
        self.done(r)
    }

    fn register_juror(&mut self, juror: Address, asset: Address, stake: i128) {
        let r = self.contract.register_juror(juror, asset, stake);
        self.done(r)
    }

    fn withdraw_juror_stake(&mut self, juror: Address) {
        let r = self.contract.withdraw_juror_stake(juror);
        self.done(r)
    }

    /// A new juror with 200 units of `asset`, of which 100 are staked.
    fn new_juror(&mut self, asset: Address) -> Address {
        let juror = self.generate();
        self.mint(asset, juror, 200_0000000);
        self.register_juror(juror, asset, 100_0000000);
        juror
    }

    fn escrow(&self, id: u32) -> &Escrow {
        self.contract.get_escrow(id).unwrap()
    }

    fn status(&self, id: u32) -> EscrowStatus {
        self.escrow(id).status
    }

    fn dispute(&self, id: u32, i: u32) -> &Dispute {
        self.contract.get_dispute(id, i).unwrap()
    }

    fn stake(&self, juror: Address) -> i128 {
        self.contract.get_juror_stake(juror).unwrap().amount
    }

    fn events(&self) -> Vec<Event> {
        let mut events = Vec::new();
        for effect in &self.contract.effects {
            if let Effect::Publish { event } = effect {
                events.push(*event);
            }
        }
        events
    }
}

fn text(s: &str) -> Vec<u8> {
    s.as_bytes().to_vec()
}

fn term(description: &str, amount: i128, offset: u64) -> (Vec<u8>, i128, u64) {
    (text(description), amount, offset)
}

/// An initialized contract, its admin, a renter, a host and an asset.
fn setup() -> (World, Address, Address, Address, Address) {
    let mut w = World::new();
    let admin = w.generate();
    let renter = w.generate();
    let host = w.generate();
    let asset = w.generate();
    w.initialize(admin);
    (w, admin, renter, host, asset)
}

/// The same, with funds for the renter.
fn setup_funded() -> (World, Address, Address, Address, Address) {
    let (mut w, admin, renter, host, asset) = setup();
    w.mint(asset, renter, 1_000_0000000);
    (w, admin, renter, host, asset)
}

fn count_complete_events(w: &World) -> usize {
    w.events().iter().filter(|e| matches!(e, Event::Complete { .. })).count()
}

#[test]
fn happy_path_single_milestone_early_confirm() {
    let (mut w, _, renter, host, asset) = setup_funded();
    let milestones = vec![term("check-in deposit", 100_0000000, 0)];

    let id = w.create_escrow(renter, host, asset, &milestones, false);
    w.deposit(renter, id);
    assert_eq!(w.status(id), EscrowStatus::Active);

    w.confirm_milestone(renter, id, 0);
    assert_eq!(w.status(id), EscrowStatus::Completed);
    assert!(w.escrow(id).milestones[0].released);

    let released = w.events().iter().filter(|e| matches!(e, Event::Released { .. })).count();
    assert_eq!(released, 1);
}

#[test]
fn dispute_flow_majority_vote() {
    let (mut w, _, renter, host, asset) = setup_funded();
    for _ in 0..3 {
        w.new_juror(asset);
    }
    let milestones = vec![term("damage deposit", 50_0000000, 999_999)];
    let id = w.create_escrow(renter, host, asset, &milestones, false);
    w.deposit(renter, id);

    let dispute_id = w.raise_dispute(host, id, 0, "ipfs://evidence");
    assert_eq!(dispute_id, id);
    assert_eq!(w.status(id), EscrowStatus::Disputed);
}

#[test]
fn cancel_escrow_before_funding() {
    let (mut w, _, renter, host, asset) = setup();
    let milestones = vec![term("check-in deposit", 100_0000000, 0)];
    let id = w.create_escrow(renter, host, asset, &milestones, false);

    // The host, not just the renter who created it, can call it off.
    let r = w.contract.cancel_escrow(host, id);
    w.done(r);
    assert_eq!(w.status(id), EscrowStatus::Cancelled);
}

#[test]
#[should_panic(expected = "Error(Contract, #5)")]
fn cancel_escrow_after_funding_fails() {
    let (mut w, _, renter, host, asset) = setup_funded();
    let milestones = vec![term("check-in deposit", 100_0000000, 0)];
    let id = w.create_escrow(renter, host, asset, &milestones, false);
    w.deposit(renter, id);

    let r = w.contract.cancel_escrow(renter, id);
    w.done(r);
}

#[test]
#[should_panic(expected = "Error(Contract, #4)")]
fn cancel_escrow_by_stranger_fails() {
    let (mut w, _, renter, host, asset) = setup();
    let stranger = w.generate();
    let milestones = vec![term("check-in deposit", 100_0000000, 0)];
    let id = w.create_escrow(renter, host, asset, &milestones, false);

    let r = w.contract.cancel_escrow(stranger, id);
    w.done(r);
}

#[test]
fn mutual_cancel_refunds_unreleased_milestones() {
    let (mut w, _, renter, host, asset) = setup_funded();
    let milestones =
        vec![term("move-in", 60_0000000, 0), term("move-out", 40_0000000, 999_999)];
    let id = w.create_escrow(renter, host, asset, &milestones, false);
    w.deposit(renter, id);

    // Release the first milestone early so only the second is refundable.
    w.confirm_milestone(renter, id, 0);
    assert_eq!(w.balance(asset, host), 60_0000000);

    let renter_before = w.balance(asset, renter);
    let r = w.contract.mutual_cancel(renter, host, id);
    w.done(r);

    assert_eq!(w.balance(asset, renter), renter_before + 40_0000000);
    assert_eq!(w.status(id), EscrowStatus::Cancelled);
    assert!(w.escrow(id).milestones[1].released);
}

#[test]
#[should_panic(expected = "Error(Contract, #5)")]
fn mutual_cancel_on_disputed_escrow_fails() {
    let (mut w, _, renter, host, asset) = setup_funded();
    for _ in 0..3 {
        w.new_juror(asset);
    }
    let milestones = vec![term("damage deposit", 50_0000000, 999_999)];
    let id = w.create_escrow(renter, host, asset, &milestones, false);
    w.deposit(renter, id);
    w.raise_dispute(host, id, 0, "ipfs://evidence");

    let r = w.contract.mutual_cancel(renter, host, id);
    w.done(r);
}

#[test]
fn protocol_fee_is_deducted_from_release_and_sent_to_treasury() {
    let (mut w, admin, renter, host, asset) = setup_funded();
    let treasury = w.generate();
    w.set_fee_config(admin, 500, treasury);

    let milestones = vec![term("check-in deposit", 100_0000000, 0)];
    let id = w.create_escrow(renter, host, asset, &milestones, false);
    w.deposit(renter, id);
    w.confirm_milestone(renter, id, 0);

    assert_eq!(w.balance(asset, treasury), 5_0000000);
    assert_eq!(w.balance(asset, host), 95_0000000);
}

#[test]
#[should_panic(expected = "Error(Contract, #18)")]
fn fee_above_cap_is_rejected() {
    let (mut w, admin, _, _, _) = setup();
    let treasury = w.generate();
    w.set_fee_config(admin, 2001, treasury);
}

#[test]
#[should_panic(expected = "Error(Contract, #4)")]
fn fee_config_requires_admin() {
    let (mut w, _, _, _, _) = setup();
    let stranger = w.generate();
    let treasury = w.generate();
    w.set_fee_config(stranger, 500, treasury);
}

#[test]
fn juror_params_are_configurable_and_enforced() {
    let (mut w, admin, renter, host, asset) = setup_funded();

    // Shrink the jury to 1 and raise the minimum stake.
    w.set_juror_params(admin, 500_0000000, 1, DEFAULT_JUROR_SLASH_BPS, i32::MIN);
    let params = w.contract.get_juror_params();
    assert_eq!(params.jury_size, 1);
    assert_eq!(params.min_stake, 500_0000000);

    let juror = w.generate();
    w.mint(asset, juror, 1_000_0000000);
    // The default stake (100) is now below the configured minimum.
    assert!(w.contract.register_juror(juror, asset, 100_0000000).is_err());
    w.register_juror(juror, asset, 500_0000000);

    let milestones = vec![term("damage deposit", 50_0000000, 999_999)];
    let id = w.create_escrow(renter, host, asset, &milestones, false);
    w.deposit(renter, id);
    w.raise_dispute(host, id, 0, "ipfs://evidence");

    assert_eq!(w.dispute(id, 0).jurors.len(), 1);
}

#[test]
#[should_panic(expected = "Error(Contract, #19)")]
fn even_jury_size_is_rejected() {
    let (mut w, admin, _, _, _) = setup();
    w.set_juror_params(admin, DEFAULT_MIN_JUROR_STAKE, 4, DEFAULT_JUROR_SLASH_BPS, i32::MIN);
}

#[test]
fn parties_cannot_be_drawn_as_jurors_on_their_own_dispute() {
    let (mut w, _, renter, host, asset) = setup_funded();
    w.mint(asset, host, 1_000_0000000);

    // Both parties register as jurors alongside one neutral juror.
    let neutral = w.generate();
    w.mint(asset, neutral, 200_0000000);
    w.register_juror(renter, asset, 100_0000000);
    w.register_juror(host, asset, 100_0000000);
    w.register_juror(neutral, asset, 100_0000000);

    let milestones = vec![term("damage deposit", 50_0000000, 999_999)];
    let id = w.create_escrow(renter, host, asset, &milestones, false);
    w.deposit(renter, id);
    w.raise_dispute(host, id, 0, "ipfs://evidence");

    let jurors = &w.dispute(id, 0).jurors;
    assert!(!jurors.contains(&renter));
    assert!(!jurors.contains(&host));
    assert!(jurors.contains(&neutral));
}

#[test]
fn juror_can_withdraw_stake_when_idle() {
    let (mut w, _, _, _, asset) = setup();
    let juror = w.generate();
    w.mint(asset, juror, 200_0000000);

    w.register_juror(juror, asset, 150_0000000);
    assert_eq!(w.balance(asset, juror), 50_0000000);

    w.withdraw_juror_stake(juror);
    assert_eq!(w.balance(asset, juror), 200_0000000);
    assert!(w.contract.get_juror_stake(juror).is_none());
}

#[test]
#[should_panic(expected = "Error(Contract, #21)")]
fn juror_cannot_withdraw_while_assigned_to_open_dispute() {
    let (mut w, admin, renter, host, asset) = setup_funded();
    w.set_juror_params(admin, DEFAULT_MIN_JUROR_STAKE, 1, DEFAULT_JUROR_SLASH_BPS, i32::MIN);
    let juror = w.new_juror(asset);

    let milestones = vec![term("damage deposit", 50_0000000, 999_999)];
    let id = w.create_escrow(renter, host, asset, &milestones, false);
    w.deposit(renter, id);
    w.raise_dispute(host, id, 0, "ipfs://evidence");

    w.withdraw_juror_stake(juror);
}

#[test]
fn juror_can_withdraw_after_dispute_resolves() {
    let (mut w, admin, renter, host, asset) = setup_funded();
    w.set_juror_params(admin, DEFAULT_MIN_JUROR_STAKE, 1, DEFAULT_JUROR_SLASH_BPS, i32::MIN);
    let juror = w.new_juror(asset);

    let milestones = vec![term("damage deposit", 50_0000000, 999_999)];
    let id = w.create_escrow(renter, host, asset, &milestones, false);
    w.deposit(renter, id);
    w.raise_dispute(host, id, 0, "ipfs://evidence");
    w.vote_dispute(juror, id, 0, true);
    w.resolve_dispute(id, 0);

    // Idle again.
    w.withdraw_juror_stake(juror);
    assert!(w.contract.get_juror_stake(juror).is_none());
}

#[test]
#[should_panic(expected = "Error(Contract, #20)")]
fn re_registering_with_a_different_asset_is_rejected() {
    let (mut w, _, _, _, token_a) = setup();
    let token_b = w.generate();
    let juror = w.generate();
    w.mint(token_a, juror, 200_0000000);
    w.mint(token_b, juror, 200_0000000);

    w.register_juror(juror, token_a, 100_0000000);
    w.register_juror(juror, token_b, 100_0000000);
}

#[test]
#[should_panic(expected = "Error(Contract, #9)")]
fn force_resolve_before_deadline_fails() {
    let (mut w, _, renter, host, asset) = setup_funded();
    for _ in 0..3 {
        w.new_juror(asset);
    }
    let milestones = vec![term("damage deposit", 50_0000000, 999_999)];
    let id = w.create_escrow(renter, host, asset, &milestones, false);
    w.deposit(renter, id);
    w.raise_dispute(host, id, 0, "ipfs://evidence");

    let r = w.contract.force_resolve_stale_dispute(id, 0, w.now);
    w.done(r);
}

#[test]
fn force_resolve_splits_funds_after_deadline_with_no_votes() {
    let (mut w, _, renter, host, asset) = setup_funded();
    for _ in 0..3 {
        w.new_juror(asset);
    }
    let milestones = vec![term("damage deposit", 50_0000000, 999_999)];
    let id = w.create_escrow(renter, host, asset, &milestones, false);
    w.deposit(renter, id);
    w.raise_dispute(host, id, 0, "ipfs://evidence");

    // The jurors go silent past the voting window.
    w.now += 3 * 24 * 60 * 60 + 1;

    let renter_before = w.balance(asset, renter);
    let host_before = w.balance(asset, host);
    let r = w.contract.force_resolve_stale_dispute(id, 0, w.now);
    w.done(r);

    assert_eq!(w.balance(asset, renter), renter_before + 25_0000000);
    assert_eq!(w.balance(asset, host), host_before + 25_0000000);

    let dispute = w.dispute(id, 0).clone();
    assert!(dispute.resolved);
    assert_eq!(dispute.outcome, DisputeOutcome::Split);

    // The jurors are no longer tied up.
    for j in dispute.jurors {
        w.withdraw_juror_stake(j);
    }
}

#[test]
fn add_and_remove_milestone_before_funding() {
    let (mut w, _, renter, host, asset) = setup();
    let milestones = vec![term("move-in", 60_0000000, 0)];
    let id = w.create_escrow(renter, host, asset, &milestones, false);

    let r = w.contract.add_milestone(renter, id, text("move-out"), 40_0000000, 999_999);
    w.done(r);
    assert_eq!(w.escrow(id).milestones.len(), 2);
    assert_eq!(w.escrow(id).total_amount, 100_0000000);

    let r = w.contract.remove_milestone(renter, id, 0);
    w.done(r);
    assert_eq!(w.escrow(id).milestones.len(), 1);
    assert_eq!(w.escrow(id).total_amount, 40_0000000);
    assert_eq!(w.escrow(id).milestones[0].description, text("move-out"));
}

#[test]
#[should_panic(expected = "Error(Contract, #2)")]
fn cannot_remove_last_remaining_milestone() {
    let (mut w, _, renter, host, asset) = setup();
    let milestones = vec![term("only one", 60_0000000, 0)];
    let id = w.create_escrow(renter, host, asset, &milestones, false);

    let r = w.contract.remove_milestone(renter, id, 0);
    w.done(r);
}

#[test]
#[should_panic(expected = "Error(Contract, #5)")]
fn cannot_edit_milestones_after_funding() {
    let (mut w, _, renter, host, asset) = setup_funded();
    let milestones = vec![term("move-in", 60_0000000, 0)];
    let id = w.create_escrow(renter, host, asset, &milestones, false);
    w.deposit(renter, id);

    let r = w.contract.add_milestone(renter, id, text("extra"), 10_0000000, 0);
    w.done(r);
}

#[test]
fn minority_juror_is_slashed_and_majority_rewarded() {
    let (mut w, _, renter, host, asset) = setup_funded();
    let maj1 = w.new_juror(asset);
    let maj2 = w.new_juror(asset);
    let minority = w.new_juror(asset);

    let milestones = vec![term("damage deposit", 50_0000000, 999_999)];
    let id = w.create_escrow(renter, host, asset, &milestones, false);
    w.deposit(renter, id);
    w.raise_dispute(host, id, 0, "ipfs://evidence");
    assert_eq!(w.dispute(id, 0).jurors.len(), 3);

    // The host wins 2-1.
    w.vote_dispute(maj1, id, 0, false);
    w.vote_dispute(maj2, id, 0, false);
    w.vote_dispute(minority, id, 0, true);
    w.resolve_dispute(id, 0);

    // 10% of 100 is 10, split evenly between the two majority jurors.
    assert_eq!(w.stake(minority), 90_0000000);
    assert_eq!(w.stake(maj1), 105_0000000);
    assert_eq!(w.stake(maj2), 105_0000000);
}

#[test]
fn slash_with_no_matching_asset_majority_juror_is_not_misdirected() {
    let (mut w, _, renter, host, asset) = setup_funded();
    let other_asset = w.generate();
    let maj1 = w.new_juror(asset);
    let maj2 = w.new_juror(asset);
    let minority = w.new_juror(other_asset);

    let milestones = vec![term("damage deposit", 50_0000000, 999_999)];
    let id = w.create_escrow(renter, host, asset, &milestones, false);
    w.deposit(renter, id);
    w.raise_dispute(host, id, 0, "ipfs://evidence");

    w.vote_dispute(maj1, id, 0, false);
    w.vote_dispute(maj2, id, 0, false);
    w.vote_dispute(minority, id, 0, true);
    w.resolve_dispute(id, 0);

    // The minority juror is slashed although nobody in the majority shares the
    // staking asset, and the majority's stakes are untouched.
    assert_eq!(w.stake(minority), 90_0000000);
    assert_eq!(w.stake(maj1), 100_0000000);
    assert_eq!(w.stake(maj2), 100_0000000);
}

#[test]
#[should_panic(expected = "Error(Contract, #22)")]
fn cannot_create_escrow_with_same_renter_and_host() {
    let (mut w, _, renter, _, asset) = setup();
    let milestones = vec![term("move-in", 60_0000000, 0)];
    w.create_escrow(renter, renter, asset, &milestones, false);
}

#[test]
#[should_panic(expected = "Error(Contract, #23)")]
fn raise_dispute_requires_non_empty_evidence() {
    let (mut w, _, renter, host, asset) = setup_funded();
    let milestones = vec![term("damage deposit", 50_0000000, 999_999)];
    let id = w.create_escrow(renter, host, asset, &milestones, false);
    w.deposit(renter, id);

    w.raise_dispute(host, id, 0, "");
}

#[test]
#[should_panic(expected = "Error(Contract, #24)")]
fn create_escrow_rejects_out_of_order_offsets() {
    let (mut w, _, renter, host, asset) = setup();
    let milestones =
        vec![term("move-out", 40_0000000, 999_999), term("move-in", 60_0000000, 0)];
    w.create_escrow(renter, host, asset, &milestones, false);
}

#[test]
#[should_panic(expected = "Error(Contract, #24)")]
fn add_milestone_rejects_offset_earlier_than_previous() {
    let (mut w, _, renter, host, asset) = setup();
    let milestones = vec![term("move-in", 60_0000000, 999_999)];
    let id = w.create_escrow(renter, host, asset, &milestones, false);

    let r = w.contract.add_milestone(renter, id, text("too-early"), 10_0000000, 0);
    w.done(r);
}

#[test]
#[should_panic(expected = "Error(Contract, #25)")]
fn paused_contract_rejects_new_escrows() {
    let (mut w, admin, renter, host, asset) = setup();
    let r = w.contract.set_paused(admin, true);
    w.done(r);

    let milestones = vec![term("move-in", 60_0000000, 0)];
    w.create_escrow(renter, host, asset, &milestones, false);
}

#[test]
fn pausing_does_not_freeze_already_active_escrows() {
    let (mut w, admin, renter, host, asset) = setup_funded();
    let milestones = vec![term("check-in deposit", 100_0000000, 0)];
    let id = w.create_escrow(renter, host, asset, &milestones, false);
    w.deposit(renter, id);

    // The pause hits after this escrow is already active.
    let r = w.contract.set_paused(admin, true);
    w.done(r);
    assert!(w.contract.is_paused());

    w.confirm_milestone(renter, id, 0);
    assert_eq!(w.status(id), EscrowStatus::Completed);
}

#[test]
fn custom_slash_rate_is_applied_instead_of_default() {
    let (mut w, admin, renter, host, asset) = setup_funded();
    // 20% instead of 10%.
    w.set_juror_params(admin, DEFAULT_MIN_JUROR_STAKE, 3, 2000, i32::MIN);
    assert_eq!(w.contract.get_juror_params().slash_bps, 2000);

    let maj1 = w.new_juror(asset);
    let maj2 = w.new_juror(asset);
    let minority = w.new_juror(asset);

    let milestones = vec![term("damage deposit", 50_0000000, 999_999)];
    let id = w.create_escrow(renter, host, asset, &milestones, false);
    w.deposit(renter, id);
    w.raise_dispute(host, id, 0, "ipfs://evidence");

    w.vote_dispute(maj1, id, 0, false);
    w.vote_dispute(maj2, id, 0, false);
    w.vote_dispute(minority, id, 0, true);
    w.resolve_dispute(id, 0);

    // 20% of 100 is 20, split evenly.
    assert_eq!(w.stake(minority), 80_0000000);
    assert_eq!(w.stake(maj1), 110_0000000);
    assert_eq!(w.stake(maj2), 110_0000000);
}

#[test]
#[should_panic(expected = "Error(Contract, #26)")]
fn slash_rate_above_cap_is_rejected() {
    let (mut w, admin, _, _, _) = setup();
    w.set_juror_params(admin, DEFAULT_MIN_JUROR_STAKE, 3, 5001, i32::MIN);
}

#[test]
#[should_panic(expected = "Error(Contract, #27)")]
fn low_reputation_address_cannot_register_as_juror_once_gated() {
    let (mut w, admin, renter, bad_host, asset) = setup_funded();
    w.mint(asset, bad_host, 200_0000000);

    // The host loses a dispute.
    for _ in 0..3 {
        w.new_juror(asset);
    }
    let milestones = vec![term("damage deposit", 50_0000000, 999_999)];
    let id = w.create_escrow(renter, bad_host, asset, &milestones, false);
    w.deposit(renter, id);
    w.raise_dispute(bad_host, id, 0, "ipfs://evidence");
    for j in w.dispute(id, 0).jurors.clone() {
        w.vote_dispute(j, id, 0, true);
    }
    w.resolve_dispute(id, 0);
    assert!(w.contract.get_reputation(bad_host) < 0);

    // Now registration takes a non-negative reputation.
    w.set_juror_params(admin, DEFAULT_MIN_JUROR_STAKE, 3, DEFAULT_JUROR_SLASH_BPS, 0);
    w.register_juror(bad_host, asset, 100_0000000);
}

#[test]
fn neutral_reputation_address_can_still_register_once_gated() {
    let (mut w, admin, _, _, asset) = setup();
    let juror = w.generate();
    w.mint(asset, juror, 200_0000000);
    w.set_juror_params(admin, DEFAULT_MIN_JUROR_STAKE, 3, DEFAULT_JUROR_SLASH_BPS, 0);

    // The default reputation (0) meets a minimum of 0.
    w.register_juror(juror, asset, 100_0000000);
    assert!(w.contract.get_juror_stake(juror).is_some());
}

#[test]
fn confirm_all_milestones_releases_every_remaining_one() {
    let (mut w, _, renter, host, asset) = setup_funded();
    let milestones = vec![
        term("move-in", 30_0000000, 0),
        term("midterm", 30_0000000, 500),
        term("move-out", 40_0000000, 999_999),
    ];
    let id = w.create_escrow(renter, host, asset, &milestones, false);
    w.deposit(renter, id);

    let r = w.contract.confirm_all_milestones(renter, id, w.now);
    w.done(r);

    assert_eq!(w.balance(asset, host), 100_0000000);
    assert_eq!(w.status(id), EscrowStatus::Completed);
    for i in 0..3 {
        assert!(w.escrow(id).milestones[i].released);
    }
}

#[test]
fn confirm_all_milestones_skips_already_released_ones() {
    let (mut w, _, renter, host, asset) = setup_funded();
    let milestones =
        vec![term("move-in", 30_0000000, 0), term("move-out", 40_0000000, 999_999)];
    let id = w.create_escrow(renter, host, asset, &milestones, false);
    w.deposit(renter, id);

    w.confirm_milestone(renter, id, 0);
    assert_eq!(w.balance(asset, host), 30_0000000);

    let r = w.contract.confirm_all_milestones(renter, id, w.now);
    w.done(r);
    assert_eq!(w.balance(asset, host), 70_0000000);
    assert_eq!(w.status(id), EscrowStatus::Completed);
}

#[test]
fn renter_can_extend_a_milestone_deadline() {
    let (mut w, _, renter, host, asset) = setup_funded();
    let milestones = vec![term("move-out", 50_0000000, 1000)];
    let id = w.create_escrow(renter, host, asset, &milestones, false);
    w.deposit(renter, id);

    let before = w.escrow(id).milestones[0].auto_release_at;
    let r = w.contract.extend_milestone_deadline(renter, id, 0, 500);
    w.done(r);
    let after = w.escrow(id).milestones[0].auto_release_at;
    assert_eq!(after, before + 500);

    // Auto-release still refuses before the new deadline.
    assert!(w.contract.check_auto_release(id, 0, w.now).is_err());
}

#[test]
#[should_panic(expected = "Error(Contract, #3)")]
fn extend_milestone_deadline_rejects_excessive_extension() {
    let (mut w, _, renter, host, asset) = setup_funded();
    let milestones = vec![term("move-out", 50_0000000, 1000)];
    let id = w.create_escrow(renter, host, asset, &milestones, false);
    w.deposit(renter, id);

    let r = w.contract.extend_milestone_deadline(renter, id, 0, 366 * 24 * 60 * 60);
    w.done(r);
}

#[test]
fn party_escrow_index_tracks_both_renter_and_host() {
    let (mut w, _, renter, host, asset) = setup();
    let other_host = w.generate();
    let milestones = vec![term("move-in", 60_0000000, 0)];

    let escrow_1 = w.create_escrow(renter, host, asset, &milestones, false);
    let escrow_2 = w.create_escrow(renter, other_host, asset, &milestones, false);

    let renter_escrows = w.contract.get_escrows_for_party(renter);
    assert_eq!(renter_escrows.len(), 2);
    assert!(renter_escrows.contains(&escrow_1));
    assert!(renter_escrows.contains(&escrow_2));

    let host_escrows = w.contract.get_escrows_for_party(host);
    assert_eq!(host_escrows.len(), 1);
    assert_eq!(host_escrows[0], escrow_1);

    let stranger = w.generate();
    assert!(w.contract.get_escrows_for_party(stranger).is_empty());
}

#[test]
#[should_panic(expected = "Error(Contract, #28)")]
fn deposit_blocked_until_host_accepts_when_gated() {
    let (mut w, _, renter, host, asset) = setup_funded();
    let milestones = vec![term("move-in", 60_0000000, 0)];
    let id = w.create_escrow(renter, host, asset, &milestones, true);

    w.deposit(renter, id);
}

#[test]
fn deposit_succeeds_after_host_accepts_gated_escrow() {
    let (mut w, _, renter, host, asset) = setup_funded();
    let milestones = vec![term("move-in", 60_0000000, 0)];
    let id = w.create_escrow(renter, host, asset, &milestones, true);

    let r = w.contract.accept_escrow(host, id);
    w.done(r);
    w.deposit(renter, id);

    assert_eq!(w.status(id), EscrowStatus::Active);
}

#[test]
fn host_can_reject_a_gated_escrow_before_funding() {
    let (mut w, _, renter, host, asset) = setup();
    let milestones = vec![term("move-in", 60_0000000, 0)];
    let id = w.create_escrow(renter, host, asset, &milestones, true);

    let r = w.contract.reject_escrow(host, id);
    w.done(r);
    assert_eq!(w.status(id), EscrowStatus::Cancelled);
}

#[test]
#[should_panic(expected = "Error(Contract, #4)")]
fn only_host_can_accept_escrow() {
    let (mut w, _, renter, host, asset) = setup();
    let milestones = vec![term("move-in", 60_0000000, 0)];
    let id = w.create_escrow(renter, host, asset, &milestones, true);

    let r = w.contract.accept_escrow(renter, id);
    w.done(r);
}

#[test]
fn resolving_one_milestones_dispute_does_not_erase_another_milestones_record() {
    let (mut w, _, renter, host, asset) = setup_funded();
    for _ in 0..3 {
        w.new_juror(asset);
    }
    let milestones =
        vec![term("move-in", 30_0000000, 0), term("move-out", 30_0000000, 999_999)];
    let id = w.create_escrow(renter, host, asset, &milestones, false);
    w.deposit(renter, id);

    // Dispute and resolve milestone 0.
    w.raise_dispute(host, id, 0, "ipfs://evidence-0");
    for j in w.dispute(id, 0).jurors.clone() {
        w.vote_dispute(j, id, 0, true);
    }
    w.resolve_dispute(id, 0);

    // Then milestone 1 of the same escrow.
    w.raise_dispute(host, id, 1, "ipfs://evidence-1");
    for j in w.dispute(id, 1).jurors.clone() {
        w.vote_dispute(j, id, 1, false);
    }
    w.resolve_dispute(id, 1);

    // The record of milestone 0 is still there.
    let first = w.dispute(id, 0);
    assert!(first.resolved);
    assert_eq!(first.outcome, DisputeOutcome::RenterWins);
    assert_eq!(first.evidence_uri, text("ipfs://evidence-0"));

    let second = w.dispute(id, 1);
    assert!(second.resolved);
    assert_eq!(second.outcome, DisputeOutcome::HostWins);
}

#[test]
fn admin_can_be_rotated_and_new_admin_takes_effect() {
    let (mut w, admin, _, _, _) = setup();
    let new_admin = w.generate();
    let treasury = w.generate();
    assert_eq!(w.contract.get_admin(), Ok(admin));

    let r = w.contract.transfer_admin(admin, new_admin);
    w.done(r);
    // A proposal alone does not switch the admin over.
    assert_eq!(w.contract.get_admin(), Ok(admin));
    assert_eq!(w.contract.get_pending_admin(), Some(new_admin));

    let r = w.contract.accept_admin_transfer(new_admin);
    w.done(r);
    assert_eq!(w.contract.get_admin(), Ok(new_admin));
    assert!(w.contract.get_pending_admin().is_none());

    // The former admin has no power any more, only the present one does.
    assert!(w.contract.set_fee_config(admin, 500, treasury).is_err());
    w.set_fee_config(new_admin, 500, treasury);
}

#[test]
#[should_panic(expected = "Error(Contract, #4)")]
fn only_the_proposed_address_can_accept_admin_transfer() {
    let (mut w, admin, _, _, _) = setup();
    let new_admin = w.generate();
    let stranger = w.generate();
    let r = w.contract.transfer_admin(admin, new_admin);
    w.done(r);

    let r = w.contract.accept_admin_transfer(stranger);
    w.done(r);
}

#[test]
fn old_admin_retains_power_until_transfer_is_accepted() {
    let (mut w, admin, _, _, _) = setup();
    let new_admin = w.generate();
    let treasury = w.generate();

    let r = w.contract.transfer_admin(admin, new_admin);
    w.done(r);
    w.set_fee_config(admin, 500, treasury);
    assert_eq!(w.contract.get_fee_config().unwrap().bps, 500);
}

#[test]
#[should_panic(expected = "Error(Contract, #4)")]
fn only_current_admin_can_transfer_admin() {
    let (mut w, _, _, _, _) = setup();
    let stranger = w.generate();
    let new_admin = w.generate();

    let r = w.contract.transfer_admin(stranger, new_admin);
    w.done(r);
}

#[test]
#[should_panic(expected = "Error(Contract, #29)")]
fn create_escrow_rejects_oversized_milestone_description() {
    let (mut w, _, renter, host, asset) = setup();
    let huge = "x".repeat(513);
    let milestones = vec![term(&huge, 60_0000000, 0)];
    w.create_escrow(renter, host, asset, &milestones, false);
}

#[test]
#[should_panic(expected = "Error(Contract, #29)")]
fn raise_dispute_rejects_oversized_evidence() {
    let (mut w, _, renter, host, asset) = setup_funded();
    let milestones = vec![term("damage deposit", 50_0000000, 999_999)];
    let id = w.create_escrow(renter, host, asset, &milestones, false);
    w.deposit(renter, id);

    let huge = "x".repeat(513);
    w.raise_dispute(host, id, 0, &huge);
}

#[test]
fn completed_event_fires_only_on_the_final_milestone() {
    let (mut w, _, renter, host, asset) = setup_funded();
    let milestones =
        vec![term("move-in", 30_0000000, 0), term("move-out", 30_0000000, 999_999)];
    let id = w.create_escrow(renter, host, asset, &milestones, false);
    w.deposit(renter, id);

    w.confirm_milestone(renter, id, 0);
    assert_eq!(count_complete_events(&w), 0);

    w.confirm_milestone(renter, id, 1);
    assert_eq!(count_complete_events(&w), 1);
}

#[test]
fn completed_event_fires_via_dispute_resolution_too() {
    let (mut w, _, renter, host, asset) = setup_funded();
    for _ in 0..3 {
        w.new_juror(asset);
    }
    let milestones = vec![term("damage deposit", 50_0000000, 999_999)];
    let id = w.create_escrow(renter, host, asset, &milestones, false);
    w.deposit(renter, id);
    w.raise_dispute(host, id, 0, "ipfs://evidence");
    for j in w.dispute(id, 0).jurors.clone() {
        w.vote_dispute(j, id, 0, true);
    }
    assert_eq!(count_complete_events(&w), 0);

    w.resolve_dispute(id, 0);
    assert_eq!(count_complete_events(&w), 1);
    assert_eq!(w.status(id), EscrowStatus::Completed);
}

#[test]
#[should_panic(expected = "Error(Contract, #30)")]
fn create_escrow_rejects_too_many_milestones() {
    let (mut w, _, renter, host, asset) = setup();
    let milestones: Terms = (0..51).map(|i| term("m", 1_0000000, i)).collect();
    w.create_escrow(renter, host, asset, &milestones, false);
}

#[test]
#[should_panic(expected = "Error(Contract, #30)")]
fn add_milestone_rejects_past_the_cap() {
    let (mut w, _, renter, host, asset) = setup();
    let milestones: Terms = (0..50).map(|i| term("m", 1_0000000, i)).collect();
    let id = w.create_escrow(renter, host, asset, &milestones, false);

    let r = w.contract.add_milestone(renter, id, text("one too many"), 1_0000000, 50);
    w.done(r);
}

#[test]
#[should_panic(expected = "Error(Contract, #31)")]
fn expire_unfunded_escrow_too_early_fails() {
    let (mut w, _, renter, host, asset) = setup();
    let milestones = vec![term("move-in", 60_0000000, 0)];
    let id = w.create_escrow(renter, host, asset, &milestones, false);

    let r = w.contract.expire_unfunded_escrow(id, w.now);
    w.done(r);
}

#[test]
fn expire_unfunded_escrow_after_window_succeeds() {
    let (mut w, _, renter, host, asset) = setup();
    let milestones = vec![term("move-in", 60_0000000, 0)];
    let id = w.create_escrow(renter, host, asset, &milestones, false);

    w.now += 30 * 24 * 60 * 60 + 1;

    let r = w.contract.expire_unfunded_escrow(id, w.now);
    w.done(r);
    assert_eq!(w.status(id), EscrowStatus::Cancelled);
}

#[test]
#[should_panic(expected = "Error(Contract, #5)")]
fn cannot_expire_an_already_funded_escrow() {
    let (mut w, _, renter, host, asset) = setup_funded();
    let milestones = vec![term("move-in", 60_0000000, 0)];
    let id = w.create_escrow(renter, host, asset, &milestones, false);
    w.deposit(renter, id);

    w.now += 30 * 24 * 60 * 60 + 1;

    let r = w.contract.expire_unfunded_escrow(id, w.now);
    w.done(r);
}

#[test]
fn escrow_count_tracks_total_created() {
    let (mut w, _, renter, host, asset) = setup();
    assert_eq!(w.contract.get_escrow_count(), 0);

    let milestones = vec![term("move-in", 60_0000000, 0)];
    w.create_escrow(renter, host, asset, &milestones, false);
    w.create_escrow(renter, host, asset, &milestones, false);

    assert_eq!(w.contract.get_escrow_count(), 2);
}

#[test]
fn active_dispute_count_reflects_open_assignments() {
    let (mut w, admin, renter, host, asset) = setup_funded();
    w.set_juror_params(admin, DEFAULT_MIN_JUROR_STAKE, 1, DEFAULT_JUROR_SLASH_BPS, i32::MIN);
    let juror = w.new_juror(asset);
    assert_eq!(w.contract.get_active_dispute_count(juror), 0);

    let milestones = vec![term("damage deposit", 50_0000000, 999_999)];
    let id = w.create_escrow(renter, host, asset, &milestones, false);
    w.deposit(renter, id);
    w.raise_dispute(host, id, 0, "ipfs://evidence");
    assert_eq!(w.contract.get_active_dispute_count(juror), 1);

    w.vote_dispute(juror, id, 0, true);
    w.resolve_dispute(id, 0);
    assert_eq!(w.contract.get_active_dispute_count(juror), 0);
}
