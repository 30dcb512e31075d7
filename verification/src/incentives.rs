//! Slashing of losing jurors and the reward of winning ones.

use crate::jurors::lemma_push_contains;
use crate::params::{BPS_DENOMINATOR, MAX_SLASH_BPS};
use crate::payout::{bps_fits, bps_of, bps_share, lemma_bps_bounds, lemma_bps_half};
use crate::state::{EscrowContract, State};
use crate::types::{Address, JurorStakeInfo};
use vstd::prelude::*;

verus! {

/// Sum of `f` over the members of `list`.
pub open spec fn sum_over(list: Seq<Address>, f: spec_fn(Address) -> int) -> int
    decreases list.len(),
{
    if list.len() == 0 {
        0
    } else {
        sum_over(list.drop_last(), f) + f(list.last())
    }
}

/// What each address has staked.
pub open spec fn stake_of(stakes: Map<Address, JurorStakeInfo>) -> spec_fn(Address) -> int {
    |a: Address|
        if stakes.contains_key(a) {
            stakes[a].amount as int
        } else {
            0
        }
}

/// What each address loses of a stake in `asset` at the slash rate `bps`.
pub open spec fn cut_of(
    stakes: Map<Address, JurorStakeInfo>,
    bps: u32,
    asset: Address,
) -> spec_fn(Address) -> int {
    |a: Address|
        if stakes.contains_key(a) && stakes[a].asset == asset {
            bps_of(stakes[a].amount as int, bps as int)
        } else {
            0
        }
}

/// 1 for each address with a stake in `asset`.
pub open spec fn holds(
    stakes: Map<Address, JurorStakeInfo>,
    asset: Address,
) -> spec_fn(Address) -> int {
    |a: Address|
        if stakes.contains_key(a) && stakes[a].asset == asset {
            1
        } else {
            0
        }
}

/// What is slashed from `losers` in `asset`.
pub open spec fn slash_pool(
    stakes: Map<Address, JurorStakeInfo>,
    losers: Seq<Address>,
    bps: u32,
    asset: Address,
) -> int {
    sum_over(losers, cut_of(stakes, bps, asset))
}

/// What each of the `winners` with a stake in `asset` gains: an even share, in
/// whole units, of what is slashed in that asset.
pub open spec fn reward(
    stakes: Map<Address, JurorStakeInfo>,
    winners: Seq<Address>,
    losers: Seq<Address>,
    bps: u32,
    asset: Address,
) -> int {
    let n = sum_over(winners, holds(stakes, asset));
    if n == 0 {
        0
    } else {
        slash_pool(stakes, losers, bps, asset) / n
    }
}

/// The stakes once those of `l` are slashed and those of `w` rewarded, where
/// the rewards come from slashing all `losers` and go to all `winners`.
pub open spec fn partly_redistributed(
    stakes: Map<Address, JurorStakeInfo>,
    winners: Seq<Address>,
    losers: Seq<Address>,
    bps: u32,
    w: Seq<Address>,
    l: Seq<Address>,
) -> Map<Address, JurorStakeInfo> {
    Map::new(
        |a: Address| stakes.contains_key(a),
        |a: Address|
            {
                let info = stakes[a];
                let amount = if l.contains(a) {
                    info.amount - bps_of(info.amount as int, bps as int)
                } else if w.contains(a) {
                    info.amount + reward(stakes, winners, losers, bps, info.asset)
                } else {
                    info.amount as int
                };
                JurorStakeInfo { asset: info.asset, amount: amount as i128 }
            },
    )
}

/// The stakes once `losers` are slashed at the rate `bps` and `winners`
/// rewarded in the same assets.
pub open spec fn redistributed(
    stakes: Map<Address, JurorStakeInfo>,
    winners: Seq<Address>,
    losers: Seq<Address>,
    bps: u32,
) -> Map<Address, JurorStakeInfo> {
    partly_redistributed(stakes, winners, losers, bps, winners, losers)
}

/// Whether the slash of every loser can be computed.
pub open spec fn cuts_fit(
    stakes: Map<Address, JurorStakeInfo>,
    losers: Seq<Address>,
    bps: u32,
) -> bool {
    forall|i: int|
        #![trigger losers[i]]
        0 <= i < losers.len() && stakes.contains_key(losers[i]) ==> bps_fits(
            stakes[losers[i]].amount as int,
            bps as int,
        )
}

/// Whether all amounts on the way to `redistributed` are in range.
pub open spec fn incentives_fit(
    stakes: Map<Address, JurorStakeInfo>,
    winners: Seq<Address>,
    losers: Seq<Address>,
    bps: u32,
) -> bool {
    &&& cuts_fit(stakes, losers, bps)
    &&& forall|i: int|
        #![trigger losers[i]]
        0 <= i < losers.len() && stakes.contains_key(losers[i]) ==> slash_pool(
            stakes,
            losers,
            bps,
            stakes[losers[i]].asset,
        ) <= i128::MAX
    &&& forall|i: int|
        #![trigger winners[i]]
        0 <= i < winners.len() && stakes.contains_key(winners[i]) ==> stakes[winners[i]].amount
            + reward(stakes, winners, losers, bps, stakes[winners[i]].asset) <= i128::MAX
}

/// A sum of nothing negative only grows with the list.
pub proof fn lemma_sum_prefix(list: Seq<Address>, f: spec_fn(Address) -> int, k: int)
    requires
        0 <= k <= list.len(),
        forall|i: int| 0 <= i < list.len() ==> f(#[trigger] list[i]) >= 0,
    ensures
        0 <= sum_over(list.take(k), f) <= sum_over(list, f),
    decreases list.len(),
{
    if k == list.len() {
        assert(list.take(k) =~= list);
        if list.len() > 0 {
            let rest = list.drop_last();
            assert forall|i: int| 0 <= i < rest.len() implies f(#[trigger] rest[i]) >= 0 by {
                assert(rest[i] == list[i]);
            }
            lemma_sum_prefix(rest, f, rest.len() as int);
            assert(rest.take(rest.len() as int) =~= rest);
            assert(f(list[list.len() - 1]) >= 0);
        }
    } else {
        let rest = list.drop_last();
        assert forall|i: int| 0 <= i < rest.len() implies f(#[trigger] rest[i]) >= 0 by {
            assert(rest[i] == list[i]);
        }
        lemma_sum_prefix(rest, f, k);
        assert(rest.take(k) =~= list.take(k));
        assert(f(list[list.len() - 1]) >= 0);
    }
}

/// The sum over one more member.
pub proof fn lemma_sum_step(list: Seq<Address>, f: spec_fn(Address) -> int, k: int)
    requires
        0 <= k < list.len(),
    ensures
        sum_over(list.take(k + 1), f) == sum_over(list.take(k), f) + f(list[k]),
{
    assert(list.take(k + 1).drop_last() =~= list.take(k));
}

/// Where something is slashed in `asset`, some loser holds a stake in it.
proof fn lemma_slash_pool_source(
    stakes: Map<Address, JurorStakeInfo>,
    losers: Seq<Address>,
    bps: u32,
    asset: Address,
)
    requires
        slash_pool(stakes, losers, bps, asset) != 0,
    ensures
        exists|i: int|
            #![trigger losers[i]]
            0 <= i < losers.len() && stakes.contains_key(losers[i]) && stakes[losers[i]].asset
                == asset,
    decreases losers.len(),
{
    let f = cut_of(stakes, bps, asset);
    if losers.len() > 0 {
        if f(losers.last()) == 0 {
            lemma_slash_pool_source(stakes, losers.drop_last(), bps, asset);
            let i = choose|i: int|
                #![trigger losers.drop_last()[i]]
                0 <= i < losers.drop_last().len() && stakes.contains_key(losers.drop_last()[i])
                    && stakes[losers.drop_last()[i]].asset == asset;
            assert(losers[i] == losers.drop_last()[i]);
        } else {
            assert(losers[losers.len() - 1] == losers.last());
        }
    }
}

/// Slashing takes nothing negative from anyone.
pub proof fn lemma_cut_nonneg(
    stakes: Map<Address, JurorStakeInfo>,
    bps: u32,
    asset: Address,
    a: Address,
)
    requires
        stakes.contains_key(a) ==> stakes[a].amount > 0,
        bps <= BPS_DENOMINATOR,
    ensures
        cut_of(stakes, bps, asset)(a) >= 0,
{
    if stakes.contains_key(a) {
        lemma_bps_bounds(stakes[a].amount as int, bps as int);
    }
}

/// All stakes are positive.
pub open spec fn stakes_positive(stakes: Map<Address, JurorStakeInfo>) -> bool {
    forall|a: Address| #[trigger] stakes.contains_key(a) ==> stakes[a].amount > 0
}

/// A reward is nothing negative, and at most what is slashed.
pub proof fn lemma_reward_bounds(
    stakes: Map<Address, JurorStakeInfo>,
    winners: Seq<Address>,
    losers: Seq<Address>,
    bps: u32,
    asset: Address,
)
    requires
        stakes_positive(stakes),
        bps <= BPS_DENOMINATOR,
    ensures
        0 <= sum_over(winners, holds(stakes, asset)) <= winners.len(),
        0 <= slash_pool(stakes, losers, bps, asset),
        0 <= reward(stakes, winners, losers, bps, asset) <= slash_pool(
            stakes,
            losers,
            bps,
            asset,
        ),
{
    let f = cut_of(stakes, bps, asset);
    let h = holds(stakes, asset);
    assert forall|i: int| 0 <= i < losers.len() implies f(#[trigger] losers[i]) >= 0 by {
        lemma_cut_nonneg(stakes, bps, asset, losers[i]);
    }
    lemma_sum_prefix(losers, f, losers.len() as int);
    assert(losers.take(losers.len() as int) =~= losers);
    lemma_count_bound(winners, stakes, asset);
    let n = sum_over(winners, h);
    let p = slash_pool(stakes, losers, bps, asset);
    if n > 0 {
        assert(0 <= p / n <= p) by (nonlinear_arith)
            requires
                p >= 0,
                n > 0,
        ;
    }
}

/// There are at most as many holders as members.
proof fn lemma_count_bound(
    list: Seq<Address>,
    stakes: Map<Address, JurorStakeInfo>,
    asset: Address,
)
    ensures
        0 <= sum_over(list, holds(stakes, asset)) <= list.len(),
    decreases list.len(),
{
    if list.len() > 0 {
        lemma_count_bound(list.drop_last(), stakes, asset);
    }
}

/// Slashing and rewarding leaves every stake positive and in its asset.
pub proof fn lemma_redistributed_positive(
    stakes: Map<Address, JurorStakeInfo>,
    winners: Seq<Address>,
    losers: Seq<Address>,
    bps: u32,
)
    requires
        stakes_positive(stakes),
        bps <= MAX_SLASH_BPS,
        incentives_fit(stakes, winners, losers, bps),
    ensures
        stakes_positive(redistributed(stakes, winners, losers, bps)),
        redistributed(stakes, winners, losers, bps).dom() == stakes.dom(),
        forall|a: Address| #[trigger]
            stakes.contains_key(a) ==> redistributed(stakes, winners, losers, bps)[a].asset
                == stakes[a].asset,
{
    let after = redistributed(stakes, winners, losers, bps);
    assert(after.dom() =~= stakes.dom());
    assert forall|a: Address| #[trigger] after.contains_key(a) implies after[a].amount > 0 by {
        assert(stakes.contains_key(a));
        let info = stakes[a];
        if losers.contains(a) {
            lemma_bps_half(info.amount as int, bps as int);
        } else if winners.contains(a) {
            lemma_reward_bounds(stakes, winners, losers, bps, info.asset);
            let i = choose|i: int| 0 <= i < winners.len() && winners[i] == a;
            assert(stakes.contains_key(winners[i]));
        }
    }
}

impl EscrowContract {
    /// What `voters` have staked together, unless that is out of range.
    pub(crate) fn stake_total(&self, voters: &Vec<Address>) -> (r: Option<i128>)
        requires
            self@.wf(),
        ensures
            match r {
                Some(t) => t == sum_over(voters@, stake_of(self@.juror_stakes)),
                None => sum_over(voters@, stake_of(self@.juror_stakes)) > i128::MAX,
            },
    {
        let ghost f = stake_of(self@.juror_stakes);
        let mut total: i128 = 0;
        let mut i: usize = 0;
        while i < voters.len()
            invariant
                self@.wf(),
                f == stake_of(self@.juror_stakes),
                i <= voters.len(),
                total == sum_over(voters@.take(i as int), f),
                total >= 0,
            decreases voters.len() - i,
        {
            proof {
                lemma_sum_step(voters@, f, i as int);
                lemma_sum_prefix(voters@, f, i + 1);
            }
            if let Some(info) = self.juror_stakes.get(&voters[i]) {
                match total.checked_add(info.amount) {
                    Some(t) => {
                        total = t;
                    },
                    None => {
                        return None;
                    },
                }
            }
            i += 1;
        }
        assert(voters@.take(i as int) =~= voters@);
        Some(total)
    }

    /// Whether the slash of every loser can be computed.
    fn cuts_fit(&self, losers: &Vec<Address>, bps: u32) -> (b: bool)
        requires
            self@.wf(),
            bps <= MAX_SLASH_BPS,
        ensures
            b == cuts_fit(self@.juror_stakes, losers@, bps),
    {
        let mut i: usize = 0;
        while i < losers.len()
            invariant
                self@.wf(),
                bps <= MAX_SLASH_BPS,
                i <= losers.len(),
                forall|j: int|
                    #![trigger losers@[j]]
                    0 <= j < i && self@.juror_stakes.contains_key(losers@[j]) ==> bps_fits(
                        self@.juror_stakes[losers@[j]].amount as int,
                        bps as int,
                    ),
            decreases losers.len() - i,
        {
            let juror: Address = losers[i];
            if let Some(info) = self.juror_stakes.get(&juror) {
                assert(self@.juror_stakes.contains_key(juror));
                if bps_share(info.amount, bps).is_none() {
                    return false;
                }
            }
            i += 1;
        }
        true
    }

    /// What is slashed from `losers` in `asset`, unless that is out of range.
    fn slash_pool(&self, losers: &Vec<Address>, bps: u32, asset: Address) -> (r: Option<i128>)
        requires
            self@.wf(),
            bps <= MAX_SLASH_BPS,
            cuts_fit(self@.juror_stakes, losers@, bps),
        ensures
            match r {
                Some(t) => t == slash_pool(self@.juror_stakes, losers@, bps, asset) && t >= 0,
                None => slash_pool(self@.juror_stakes, losers@, bps, asset) > i128::MAX,
            },
    {
        let ghost f = cut_of(self@.juror_stakes, bps, asset);
        proof {
            assert forall|i: int| 0 <= i < losers@.len() implies f(#[trigger] losers@[i]) >= 0 by {
                lemma_cut_nonneg(self@.juror_stakes, bps, asset, losers@[i]);
            }
        }
        let mut total: i128 = 0;
        let mut i: usize = 0;
        while i < losers.len()
            invariant
                self@.wf(),
                bps <= MAX_SLASH_BPS,
                cuts_fit(self@.juror_stakes, losers@, bps),
                f == cut_of(self@.juror_stakes, bps, asset),
                forall|i: int| 0 <= i < losers@.len() ==> f(#[trigger] losers@[i]) >= 0,
                i <= losers.len(),
                total == sum_over(losers@.take(i as int), f),
                total >= 0,
            decreases losers.len() - i,
        {
            proof {
                lemma_sum_step(losers@, f, i as int);
                lemma_sum_prefix(losers@, f, i + 1);
            }
            let juror: Address = losers[i];
            if let Some(info) = self.juror_stakes.get(&juror) {
                if info.asset == asset {
                    let cut: i128 = bps_share(info.amount, bps).unwrap();
                    match total.checked_add(cut) {
                        Some(t) => {
                            total = t;
                        },
                        None => {
                            return None;
                        },
                    }
                }
            }
            i += 1;
        }
        assert(losers@.take(i as int) =~= losers@);
        Some(total)
    }

    /// How many of `winners` hold a stake in `asset`.
    fn holders(&self, winners: &Vec<Address>, asset: Address) -> (n: usize)
        ensures
            n == sum_over(winners@, holds(self@.juror_stakes, asset)),
    {
        let ghost f = holds(self@.juror_stakes, asset);
        let mut n: usize = 0;
        let mut i: usize = 0;
        while i < winners.len()
            invariant
                f == holds(self@.juror_stakes, asset),
                n <= i <= winners.len(),
                n == sum_over(winners@.take(i as int), f),
            decreases winners.len() - i,
        {
            proof {
                lemma_sum_step(winners@, f, i as int);
            }
            if let Some(info) = self.juror_stakes.get(&winners[i]) {
                if info.asset == asset {
                    n += 1;
                }
            }
            i += 1;
        }
        assert(winners@.take(i as int) =~= winners@);
        n
    }

    /// What each of the `winners` with a stake in `asset` gains.
    fn reward(&self, winners: &Vec<Address>, losers: &Vec<Address>, bps: u32, asset: Address) -> (r:
        i128)
        requires
            self@.wf(),
            bps <= MAX_SLASH_BPS,
            cuts_fit(self@.juror_stakes, losers@, bps),
            slash_pool(self@.juror_stakes, losers@, bps, asset) <= i128::MAX,
        ensures
            r == reward(self@.juror_stakes, winners@, losers@, bps, asset),
            r >= 0,
    {
        proof {
            lemma_reward_bounds(self@.juror_stakes, winners@, losers@, bps, asset);
        }
        let n: usize = self.holders(winners, asset);
        if n == 0 {
            0
        } else {
            let pool: i128 = self.slash_pool(losers, bps, asset).unwrap();
            pool / n as i128
        }
    }

    /// Whether slashing `losers` and rewarding `winners` stays in range.
    pub(crate) fn incentives_fit(&self, winners: &Vec<Address>, losers: &Vec<Address>, bps: u32) -> (b:
        bool)
        requires
            self@.wf(),
            bps <= MAX_SLASH_BPS,
        ensures
            b == incentives_fit(self@.juror_stakes, winners@, losers@, bps),
    {
        let ghost stakes = self@.juror_stakes;
        if !self.cuts_fit(losers, bps) {
            return false;
        }
        let mut i: usize = 0;
        while i < losers.len()
            invariant
                self@.wf(),
                stakes == self@.juror_stakes,
                bps <= MAX_SLASH_BPS,
                cuts_fit(stakes, losers@, bps),
                i <= losers.len(),
                forall|j: int|
                    #![trigger losers@[j]]
                    0 <= j < i && stakes.contains_key(losers@[j]) ==> slash_pool(
                        stakes,
                        losers@,
                        bps,
                        stakes[losers@[j]].asset,
                    ) <= i128::MAX,
            decreases losers.len() - i,
        {
            if let Some(info) = self.juror_stakes.get(&losers[i]) {
                if self.slash_pool(losers, bps, info.asset).is_none() {
                    return false;
                }
            }
            i += 1;
        }
        let mut k: usize = 0;
        while k < winners.len()
            invariant
                self@.wf(),
                stakes == self@.juror_stakes,
                bps <= MAX_SLASH_BPS,
                cuts_fit(stakes, losers@, bps),
                forall|j: int|
                    #![trigger losers@[j]]
                    0 <= j < losers@.len() && stakes.contains_key(losers@[j]) ==> slash_pool(
                        stakes,
                        losers@,
                        bps,
                        stakes[losers@[j]].asset,
                    ) <= i128::MAX,
                k <= winners.len(),
                forall|j: int|
                    #![trigger winners@[j]]
                    0 <= j < k && stakes.contains_key(winners@[j]) ==> stakes[winners@[j]].amount
                        + reward(stakes, winners@, losers@, bps, stakes[winners@[j]].asset)
                        <= i128::MAX,
            decreases winners.len() - k,
        {
            if let Some(info) = self.juror_stakes.get(&winners[k]) {
                proof {
                    if slash_pool(stakes, losers@, bps, info.asset) != 0 {
                        lemma_slash_pool_source(stakes, losers@, bps, info.asset);
                    }
                }
                let share: i128 = self.reward(winners, losers, bps, info.asset);
                if info.amount.checked_add(share).is_none() {
                    return false;
                }
            }
            k += 1;
        }
        true
    }

    /// Slashes the configured share of each losing juror's stake and
    /// redistributes it evenly among winning jurors staked in the same asset.
    /// Where no winner shares the asset, the slashed amount stays in the
    /// contract's balance.
    pub(crate) fn apply_juror_incentives(
        &mut self,
        winners: &Vec<Address>,
        losers: &Vec<Address>,
        bps: u32,
    )
        requires
            old(self)@.wf(),
            bps <= MAX_SLASH_BPS,
            winners@.no_duplicates(),
            losers@.no_duplicates(),
            forall|a: Address| !(#[trigger] winners@.contains(a) && losers@.contains(a)),
            incentives_fit(old(self)@.juror_stakes, winners@, losers@, bps),
        ensures
            final(self)@ == (State {
                juror_stakes: redistributed(old(self)@.juror_stakes, winners@, losers@, bps),
                ..old(self)@
            }),
            final(self)@.wf(),
    {
        let ghost s0 = self@;
        let ghost stakes = s0.juror_stakes;

        let mut rewards: Vec<i128> = Vec::new();
        let mut k: usize = 0;
        while k < winners.len()
            invariant
                self@ == s0,
                s0.wf(),
                stakes == s0.juror_stakes,
                bps <= MAX_SLASH_BPS,
                incentives_fit(stakes, winners@, losers@, bps),
                k <= winners.len(),
                rewards@.len() == k,
                forall|j: int|
                    #![trigger winners@[j]]
                    0 <= j < k && stakes.contains_key(winners@[j]) ==> rewards@[j] == reward(
                        stakes,
                        winners@,
                        losers@,
                        bps,
                        stakes[winners@[j]].asset,
                    ),
            decreases winners.len() - k,
        {
            let juror: Address = winners[k];
            let share: i128 = match self.juror_stakes.get(&juror) {
                Some(info) => {
                    proof {
                        if slash_pool(stakes, losers@, bps, info.asset) != 0 {
                            lemma_slash_pool_source(stakes, losers@, bps, info.asset);
                        }
                    }
                    self.reward(winners, losers, bps, info.asset)
                },
                None => 0,
            };
            rewards.push(share);
            k += 1;
        }

        let ghost none = Seq::<Address>::empty();
        assert(stakes =~= partly_redistributed(
            stakes,
            winners@,
            losers@,
            bps,
            none,
            losers@.take(0),
        ));
        let mut i: usize = 0;
        while i < losers.len()
            invariant
                s0.wf(),
                stakes == s0.juror_stakes,
                bps <= MAX_SLASH_BPS,
                incentives_fit(stakes, winners@, losers@, bps),
                losers@.no_duplicates(),
                none == Seq::<Address>::empty(),
                i <= losers.len(),
                self@ == (State {
                    juror_stakes: partly_redistributed(
                        stakes,
                        winners@,
                        losers@,
                        bps,
                        none,
                        losers@.take(i as int),
                    ),
                    ..s0
                }),
            decreases losers.len() - i,
        {
            let juror: Address = losers[i];
            let ghost before = losers@.take(i as int);
            let ghost after = losers@.take(i + 1);
            proof {
                assert(after =~= before.push(juror));
                assert(!before.contains(juror));
                assert forall|a: Address| #[trigger] after.contains(a) <==> before.contains(a) || a
                    == juror by {
                    lemma_push_contains(before, juror, a);
                }
            }
            let held: Option<JurorStakeInfo> = self.get_juror_stake(juror);
            if let Some(info) = held {
                assert(stakes.contains_key(juror));
                assert(info == stakes[juror]);
                let cut: i128 = bps_share(info.amount, bps).unwrap();
                self.juror_stakes.insert(
                    juror,
                    JurorStakeInfo { asset: info.asset, amount: info.amount - cut },
                );
            }
            assert(self@.juror_stakes =~= partly_redistributed(
                stakes,
                winners@,
                losers@,
                bps,
                none,
                after,
            ));
            i += 1;
        }
        assert(losers@.take(i as int) =~= losers@);

        assert(winners@.take(0) =~= none);
        k = 0;
        while k < winners.len()
            invariant
                s0.wf(),
                stakes == s0.juror_stakes,
                bps <= MAX_SLASH_BPS,
                incentives_fit(stakes, winners@, losers@, bps),
                winners@.no_duplicates(),
                forall|a: Address| !(#[trigger] winners@.contains(a) && losers@.contains(a)),
                rewards@.len() == winners@.len(),
                forall|j: int|
                    #![trigger winners@[j]]
                    0 <= j < winners@.len() && stakes.contains_key(winners@[j]) ==> rewards@[j]
                        == reward(stakes, winners@, losers@, bps, stakes[winners@[j]].asset),
                k <= winners.len(),
                self@ == (State {
                    juror_stakes: partly_redistributed(
                        stakes,
                        winners@,
                        losers@,
                        bps,
                        winners@.take(k as int),
                        losers@,
                    ),
                    ..s0
                }),
            decreases winners.len() - k,
        {
            let juror: Address = winners[k];
            let ghost before = winners@.take(k as int);
            let ghost after = winners@.take(k + 1);
            proof {
                assert(after =~= before.push(juror));
                assert(!before.contains(juror));
                assert(winners@.contains(juror));
                assert forall|a: Address| #[trigger] after.contains(a) <==> before.contains(a) || a
                    == juror by {
                    lemma_push_contains(before, juror, a);
                }
            }
            let held: Option<JurorStakeInfo> = self.get_juror_stake(juror);
            if let Some(info) = held {
                assert(stakes.contains_key(juror));
                assert(info == stakes[juror]);
                proof {
                    lemma_reward_bounds(stakes, winners@, losers@, bps, info.asset);
                }
                let share: i128 = rewards[k];
                self.juror_stakes.insert(
                    juror,
                    JurorStakeInfo { asset: info.asset, amount: info.amount + share },
                );
            }
            assert(self@.juror_stakes =~= partly_redistributed(
                stakes,
                winners@,
                losers@,
                bps,
                after,
                losers@,
            ));
            k += 1;
        }
        assert(winners@.take(k as int) =~= winners@);
        proof {
            lemma_redistributed_positive(stakes, winners@, losers@, bps);
        }
    }
}

} // verus!
