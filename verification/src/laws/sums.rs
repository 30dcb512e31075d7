//! Sums over jurors, and what slashing does to them.

use crate::incentives::{
    cut_of, holds, incentives_fit, lemma_reward_bounds, redistributed, reward, slash_pool,
    stakes_positive, sum_over,
};
use crate::jurors::without;
use crate::params::MAX_SLASH_BPS;
use crate::payout::lemma_bps_bounds;
use crate::types::{Address, JurorStakeInfo};
use vstd::prelude::*;

verus! {

/// What each address has staked in `asset`.
pub open spec fn stake_in(
    stakes: Map<Address, JurorStakeInfo>,
    asset: Address,
) -> spec_fn(Address) -> int {
    |a: Address|
        if stakes.contains_key(a) && stakes[a].asset == asset {
            stakes[a].amount as int
        } else {
            0
        }
}

/// The sum over those who remain once `who` has left.
pub proof fn lemma_sum_without(pool: Seq<Address>, who: Address, f: spec_fn(Address) -> int)
    requires
        pool.contains(who),
    ensures
        sum_over(without(pool, who), f) == sum_over(pool, f) - f(who),
{
    lemma_sum_remove(pool, pool.index_of(who), f);
}

/// The sum with one member less.
proof fn lemma_sum_remove(list: Seq<Address>, i: int, f: spec_fn(Address) -> int)
    requires
        0 <= i < list.len(),
    ensures
        sum_over(list.remove(i), f) == sum_over(list, f) - f(list[i]),
    decreases list.len(),
{
    if i == list.len() - 1 {
        assert(list.remove(i) =~= list.drop_last());
    } else {
        lemma_sum_remove(list.drop_last(), i, f);
        assert(list.remove(i).drop_last() =~= list.drop_last().remove(i));
        assert(list.remove(i).last() == list.last());
    }
}

/// Sums of equal values are equal.
pub proof fn lemma_sum_same(
    list: Seq<Address>,
    f: spec_fn(Address) -> int,
    g: spec_fn(Address) -> int,
)
    requires
        forall|a: Address| #[trigger] list.contains(a) ==> f(a) == g(a),
    ensures
        sum_over(list, f) == sum_over(list, g),
    decreases list.len(),
{
    if list.len() > 0 {
        let rest = list.drop_last();
        assert forall|a: Address| #[trigger] rest.contains(a) implies f(a) == g(a) by {
            let j = choose|j: int| 0 <= j < rest.len() && rest[j] == a;
            assert(list[j] == a);
            assert(list.contains(a));
        }
        lemma_sum_same(rest, f, g);
        assert(list.contains(list[list.len() - 1]));
    }
}

/// A sum of differences and sums.
proof fn lemma_sum_linear(
    list: Seq<Address>,
    p: spec_fn(Address) -> int,
    f: spec_fn(Address) -> int,
    g: spec_fn(Address) -> int,
    h: spec_fn(Address) -> int,
)
    requires
        forall|a: Address| #[trigger] p(a) == f(a) - g(a) + h(a),
    ensures
        sum_over(list, p) == sum_over(list, f) - sum_over(list, g) + sum_over(list, h),
    decreases list.len(),
{
    if list.len() > 0 {
        lemma_sum_linear(list.drop_last(), p, f, g, h);
        assert(p(list.last()) == f(list.last()) - g(list.last()) + h(list.last()));
    }
}

/// Changing the value of one member changes the sum by as much.
pub proof fn lemma_sum_point(
    list: Seq<Address>,
    x: Address,
    f: spec_fn(Address) -> int,
    g: spec_fn(Address) -> int,
)
    requires
        list.no_duplicates(),
        forall|a: Address| a != x ==> #[trigger] f(a) == g(a),
    ensures
        sum_over(list, g) == sum_over(list, f) + if list.contains(x) {
            g(x) - f(x)
        } else {
            0
        },
    decreases list.len(),
{
    if list.len() > 0 {
        let rest = list.drop_last();
        let last = list.last();
        lemma_sum_point(rest, x, f, g);
        assert(list[list.len() - 1] == last);
        if list.contains(x) {
            let j = choose|j: int| 0 <= j < list.len() && list[j] == x;
            if j < rest.len() {
                assert(rest[j] == x);
                assert(last != x);
            }
        }
        if rest.contains(x) {
            let j = choose|j: int| 0 <= j < rest.len() && rest[j] == x;
            assert(list[j] == x);
            assert(last != x);
        }
        if last != x {
            assert(f(last) == g(last));
        }
    }
}

/// The values of the members of `l`, and 0 for everyone else.
spec fn only(l: Seq<Address>, f: spec_fn(Address) -> int) -> spec_fn(Address) -> int {
    |a: Address|
        if l.contains(a) {
            f(a)
        } else {
            0
        }
}

/// Summing over a list that holds whoever counts in `l` is summing over `l`.
proof fn lemma_sum_only(list: Seq<Address>, l: Seq<Address>, f: spec_fn(Address) -> int)
    requires
        list.no_duplicates(),
        l.no_duplicates(),
        forall|a: Address| #[trigger] l.contains(a) && f(a) != 0 ==> list.contains(a),
    ensures
        sum_over(list, only(l, f)) == sum_over(l, f),
    decreases l.len(),
{
    if l.len() == 0 {
        lemma_sum_zero(list, only(l, f));
    } else {
        let rest = l.drop_last();
        let x = l.last();
        assert(l[l.len() - 1] == x);
        assert(l.contains(x));
        assert forall|a: Address| #[trigger] rest.contains(a) implies l.contains(a) && a != x by {
            let j = choose|j: int| 0 <= j < rest.len() && rest[j] == a;
            assert(l[j] == a);
        }
        assert forall|a: Address| a != x implies #[trigger] only(rest, f)(a) == only(l, f)(a) by {
            if l.contains(a) {
                let j = choose|j: int| 0 <= j < l.len() && l[j] == a;
                assert(rest[j] == a);
                assert(rest.contains(a));
            }
        }
        lemma_sum_only(list, rest, f);
        lemma_sum_point(list, x, only(rest, f), only(l, f));
        assert(!rest.contains(x));
    }
}

/// A sum of zeros.
proof fn lemma_sum_zero(list: Seq<Address>, f: spec_fn(Address) -> int)
    requires
        forall|a: Address| #[trigger] f(a) == 0,
    ensures
        sum_over(list, f) == 0,
    decreases list.len(),
{
    if list.len() > 0 {
        lemma_sum_zero(list.drop_last(), f);
        assert(f(list.last()) == 0);
    }
}

/// What each address with a stake in `asset` gains, where that is `r`.
spec fn gain_of(
    stakes: Map<Address, JurorStakeInfo>,
    asset: Address,
    r: int,
) -> spec_fn(Address) -> int {
    |a: Address|
        if stakes.contains_key(a) && stakes[a].asset == asset {
            r
        } else {
            0
        }
}

/// Equal gains sum up to the gain times the number of those who gain.
proof fn lemma_sum_gains(
    list: Seq<Address>,
    stakes: Map<Address, JurorStakeInfo>,
    asset: Address,
    r: int,
)
    ensures
        sum_over(list, gain_of(stakes, asset, r)) == r * sum_over(list, holds(stakes, asset)),
    decreases list.len(),
{
    if list.len() > 0 {
        let rest = list.drop_last();
        lemma_sum_gains(rest, stakes, asset, r);
        let n = sum_over(rest, holds(stakes, asset));
        let h = holds(stakes, asset)(list.last());
        assert(r * (n + h) == r * n + r * h) by (nonlinear_arith);
        assert(r * h == gain_of(stakes, asset, r)(list.last())) by {
            assert(r * 1 == r);
            assert(r * 0 == 0);
        }
    } else {
        assert(r * 0 == 0);
    }
}

/// Slashing and rewarding moves stakes around within each asset, and never
/// makes more of them.
pub proof fn law_redistribution_creates_nothing(
    pool: Seq<Address>,
    stakes: Map<Address, JurorStakeInfo>,
    winners: Seq<Address>,
    losers: Seq<Address>,
    bps: u32,
    asset: Address,
)
    requires
        pool.no_duplicates(),
        forall|a: Address| #[trigger] stakes.contains_key(a) ==> pool.contains(a),
        stakes_positive(stakes),
        bps <= MAX_SLASH_BPS,
        winners.no_duplicates(),
        losers.no_duplicates(),
        forall|a: Address| !(#[trigger] winners.contains(a) && losers.contains(a)),
        incentives_fit(stakes, winners, losers, bps),
    ensures
        sum_over(pool, stake_in(redistributed(stakes, winners, losers, bps), asset)) <= sum_over(
            pool,
            stake_in(stakes, asset),
        ),
{
    let after = redistributed(stakes, winners, losers, bps);
    let r = reward(stakes, winners, losers, bps, asset);
    let n = sum_over(winners, holds(stakes, asset));
    let slashed = slash_pool(stakes, losers, bps, asset);
    let cut = cut_of(stakes, bps, asset);
    let gain = gain_of(stakes, asset, r);
    let p = stake_in(after, asset);
    let f = stake_in(stakes, asset);
    lemma_reward_bounds(stakes, winners, losers, bps, asset);
    assert forall|a: Address| #[trigger] p(a) == f(a) - only(losers, cut)(a) + only(
        winners,
        gain,
    )(a) by {
        if stakes.contains_key(a) && stakes[a].asset == asset {
            let amount = stakes[a].amount as int;
            if losers.contains(a) {
                assert(!(winners.contains(a) && losers.contains(a)));
                lemma_bps_bounds(amount, bps as int);
            } else if winners.contains(a) {
                let j = choose|j: int| 0 <= j < winners.len() && winners[j] == a;
                assert(stakes.contains_key(winners[j]));
            }
        }
    }
    lemma_sum_linear(pool, p, f, only(losers, cut), only(winners, gain));
    lemma_sum_only(pool, losers, cut);
    lemma_sum_only(pool, winners, gain);
    lemma_sum_gains(winners, stakes, asset, r);
    if n > 0 {
        assert(r * n <= slashed) by (nonlinear_arith)
            requires
                r == slashed / n,
                n > 0,
                slashed >= 0,
        ;
    } else {
        assert(r * n == 0) by (nonlinear_arith)
            requires
                n == 0,
        ;
    }
}

} // verus!
