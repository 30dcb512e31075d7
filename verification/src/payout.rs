//! Payouts, the protocol fee and reputation.

use crate::params::BPS_DENOMINATOR;
use crate::state::{lookup, EscrowContract, State};
use crate::types::{Address, Effect};
use vstd::prelude::*;

verus! {

/// `bps` basis points of `amount`, rounded down.
pub open spec fn bps_of(amount: int, bps: int) -> int {
    amount * bps / (BPS_DENOMINATOR as int)
}

/// Whether `bps` basis points of `amount` can be computed.
pub open spec fn bps_fits(amount: int, bps: int) -> bool {
    amount * bps <= i128::MAX
}

/// A rate of at most the whole yields between nothing and the whole.
pub proof fn lemma_bps_bounds(amount: int, bps: int)
    requires
        amount >= 0,
        0 <= bps <= BPS_DENOMINATOR,
    ensures
        0 <= bps_of(amount, bps) <= amount,
        amount * bps >= 0,
{
    assert(0 <= amount * bps <= amount * 10_000) by (nonlinear_arith)
        requires
            amount >= 0,
            0 <= bps <= 10_000,
    ;
    assert(amount * bps / 10_000 <= amount) by (nonlinear_arith)
        requires
            0 <= amount * bps <= amount * 10_000,
    ;
}

/// A rate of at most half yields at most half.
pub proof fn lemma_bps_half(amount: int, bps: int)
    requires
        amount >= 0,
        0 <= bps <= 5_000,
    ensures
        0 <= bps_of(amount, bps),
        2 * bps_of(amount, bps) <= amount,
{
    assert(0 <= amount * bps <= amount * 5_000) by (nonlinear_arith)
        requires
            amount >= 0,
            0 <= bps <= 5_000,
    ;
    assert(2 * (amount * bps / 10_000) <= amount) by (nonlinear_arith)
        requires
            0 <= amount * bps <= amount * 5_000,
    ;
}

/// `bps` basis points of `amount`, unless the product is out of range.
pub(crate) fn bps_share(amount: i128, bps: u32) -> (r: Option<i128>)
    requires
        amount >= 0,
        bps <= BPS_DENOMINATOR,
    ensures
        match r {
            Some(share) => {
                &&& bps_fits(amount as int, bps as int)
                &&& share == bps_of(amount as int, bps as int)
                &&& 0 <= share <= amount
            },
            None => !bps_fits(amount as int, bps as int),
        },
{
    proof {
        lemma_bps_bounds(amount as int, bps as int);
    }
    match amount.checked_mul(bps as i128) {
        Some(product) => Some(product / BPS_DENOMINATOR),
        None => None,
    }
}

impl State {
    /// The protocol fee rate on payouts to `recipient`.
    pub open spec fn fee_rate(self, recipient: Address) -> u32 {
        match self.fee_config {
            Some(c) => if lookup(self.fee_exempt, recipient, false) {
                0
            } else {
                c.bps
            },
            None => 0,
        }
    }

    /// The protocol fee on a payout of `amount` to `recipient`.
    pub open spec fn fee_on(self, recipient: Address, amount: int) -> int {
        bps_of(amount, self.fee_rate(recipient) as int)
    }

    /// Whether the fee on a payout of `amount` to `recipient` can be computed.
    pub open spec fn payout_fits(self, recipient: Address, amount: int) -> bool {
        bps_fits(amount, self.fee_rate(recipient) as int)
    }

    /// The state once `amount` is paid out to `recipient`, less the protocol
    /// fee, which goes to the treasury.
    pub open spec fn pay_out(self, asset: Address, recipient: Address, amount: int) -> State {
        let fee = self.fee_on(recipient, amount);
        let s = if fee > 0 {
            self.emit(
                Effect::Pay { asset, to: self.fee_config->0.treasury, amount: fee as i128 },
            )
        } else {
            self
        };
        s.emit(Effect::Pay { asset, to: recipient, amount: (amount - fee) as i128 })
    }

    /// Whether the reputation of `who` can move by `delta`.
    pub open spec fn reputation_fits(self, who: Address, delta: int) -> bool {
        i32::MIN <= self.reputation_of(who) + delta <= i32::MAX
    }

    /// The state once the reputation of `who` moved by `delta`.
    pub open spec fn adjust_reputation(self, who: Address, delta: int) -> State {
        State {
            reputation: self.reputation.insert(who, (self.reputation_of(who) + delta) as i32),
            ..self
        }
    }
}

impl EscrowContract {
    /// Whether payouts to `who` are free of the protocol fee.
    pub(crate) fn exempt(&self, who: Address) -> (b: bool)
        ensures
            b == lookup(self@.fee_exempt, who, false),
    {
        match self.fee_exempt.get(&who) {
            Some(b) => *b,
            None => false,
        }
    }

    /// Splits a payout into (fee, net) per the configured protocol fee, unless
    /// the fee is out of range.
    pub(crate) fn fee_split(&self, recipient: Address, amount: i128) -> (r: Option<(i128, i128)>)
        requires
            self@.wf(),
            amount >= 0,
        ensures
            match r {
                Some((fee, net)) => {
                    &&& self@.payout_fits(recipient, amount as int)
                    &&& fee == self@.fee_on(recipient, amount as int)
                    &&& net == amount - fee
                    &&& 0 <= fee <= amount
                },
                None => !self@.payout_fits(recipient, amount as int),
            },
    {
        let bps: u32 = match &self.fee_config {
            Some(c) => if self.exempt(recipient) {
                0
            } else {
                c.bps
            },
            None => 0,
        };
        match bps_share(amount, bps) {
            Some(fee) => Some((fee, amount - fee)),
            None => None,
        }
    }

    /// Asks for a payout, less the protocol fee.
    pub(crate) fn pay_out(&mut self, asset: Address, recipient: Address, amount: i128)
        requires
            old(self)@.wf(),
            amount >= 0,
            old(self)@.payout_fits(recipient, amount as int),
        ensures
            final(self)@ == old(self)@.pay_out(asset, recipient, amount as int),
    {
        let split = self.fee_split(recipient, amount);
        let (fee, net) = split.unwrap();
        if fee > 0 {
            let treasury: Address = self.fee_config.unwrap().treasury;
            self.emit(Effect::Pay { asset, to: treasury, amount: fee });
        }
        self.emit(Effect::Pay { asset, to: recipient, amount: net });
    }

    /// The reputation of `who`, 0 until it changes.
    pub fn get_reputation(&self, who: Address) -> (r: i32)
        ensures
            r == self@.reputation_of(who),
    {
        match self.reputation.get(&who) {
            Some(r) => *r,
            None => 0,
        }
    }

    /// Moves the reputation of `who` by `delta`.
    pub(crate) fn adjust_reputation(&mut self, who: Address, delta: i32)
        requires
            old(self)@.reputation_fits(who, delta as int),
        ensures
            final(self)@ == old(self)@.adjust_reputation(who, delta as int),
    {
        let current: i32 = self.get_reputation(who);
        self.reputation.insert(who, current + delta);
    }

    /// Whether the reputation of `who` can move by `delta`.
    pub(crate) fn reputation_can_move(&self, who: Address, delta: i32) -> (b: bool)
        ensures
            b == self@.reputation_fits(who, delta as int),
    {
        self.get_reputation(who).checked_add(delta).is_some()
    }
}

} // verus!
