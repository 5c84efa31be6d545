//! The settlement engine: weighted draw of a winner by a cumulative walk over
//! the contributions' shares, and the fee and prize split.
use crate::lcg::{draw_of, generate_random_value};
use crate::msg::{BetView, Transfer, TransferView};
use crate::pool::{lemma_amount_le_sum, lemma_sum_nonneg, sum_amounts, Pool, PoolView};
use vstd::arithmetic::div_mod::{lemma_div_pos_is_pos, lemma_fundamental_div_mod, lemma_mod_pos_bound};
use vstd::prelude::*;

verus! {

/// Scale of the shares: 10000 units make the whole pool.
pub const SHARE_SCALE: u128 = 10000;

/// Percentage of the pool taken as the protocol fee.
pub const FEE_PERCENT: u128 = 4;

/// The largest pool total that can be settled: above it `amount * 10000`
/// does not fit in 128 bits.
pub const MAX_SETTLED_TOTAL: u128 = u128::MAX / 10000;

/// A contribution's share of the pool on the 10000-unit scale, rounded down.
pub open spec fn share(amount: int, total: int) -> int {
    amount * SHARE_SCALE / total
}

/// The sum of the shares of a sequence of contributions.
pub open spec fn cumulative(bets: Seq<BetView>, total: int) -> int
    decreases bets.len(),
{
    if bets.len() == 0 {
        0
    } else {
        cumulative(bets.drop_last(), total) + share(bets.last().amount as int, total)
    }
}

/// The cumulative bound reached after the first `i` contributions of the walk.
pub open spec fn bound(bets: Seq<BetView>, total: int, i: int) -> int {
    cumulative(bets.take(i), total)
}

/// The first index, from `i` on, whose band strictly contains the draw `d`.
pub open spec fn first_winner_from(bets: Seq<BetView>, total: int, d: int, i: int) -> Option<int>
    decreases bets.len() - i,
{
    if i < 0 || i >= bets.len() {
        None
    } else if bound(bets, total, i) < d < bound(bets, total, i + 1) {
        Some(i)
    } else {
        first_winner_from(bets, total, d, i + 1)
    }
}

/// The index of the winning contribution for the draw `d`, if any band
/// strictly contains it. A draw that falls on a band's edge, or past the last
/// bound, selects nobody.
pub open spec fn winner_index(bets: Seq<BetView>, total: int, d: int) -> Option<int> {
    first_winner_from(bets, total, d, 0)
}

/// The protocol fee on a pool total: 4 percent, rounded down.
pub open spec fn fee_of(total: int) -> int {
    total * FEE_PERCENT / 100
}

/// Mathematical model of a settlement's outcome.
pub struct SettlementView {
    pub winner: Option<Seq<char>>,
    pub fee: u128,
    pub prize: u128,
    pub transfers: Seq<TransferView>,
}

/// The outcome of settling `pool` for the administrator `admin` with `seed`:
/// the fee goes to the administrator, the prize to the winner. When the draw
/// selects nobody, the winner is reported as absent and the prize goes to the
/// administrator, so that no funds are sent to an empty identity.
pub open spec fn settlement_of(pool: PoolView, admin: Seq<char>, seed: u64) -> SettlementView {
    let winner = match winner_index(pool.bets, pool.total as int, draw_of(seed) as int) {
        Some(i) => Some(pool.bets[i].user),
        None => None,
    };
    let fee = fee_of(pool.total as int);
    let denom = pool.bets.last().denom;
    let prize_recipient = match winner {
        Some(w) => w,
        None => admin,
    };
    SettlementView {
        winner,
        fee: fee as u128,
        prize: (pool.total - fee) as u128,
        transfers: seq![
            TransferView { recipient: admin, amount: fee as u128, denom },
            TransferView { recipient: prize_recipient, amount: (pool.total - fee) as u128, denom },
        ],
    }
}

/// The result of a settlement: the winner (absent when the draw selected
/// nobody), the fee, the prize, and the two transfer instructions.
pub struct Settlement {
    pub winner: Option<String>,
    pub fee: u128,
    pub prize: u128,
    pub transfers: Vec<Transfer>,
}

impl View for Settlement {
    type V = SettlementView;

    open spec fn view(&self) -> SettlementView {
        SettlementView {
            winner: match self.winner {
                Some(w) => Some(w@),
                None => None,
            },
            fee: self.fee,
            prize: self.prize,
            transfers: self.transfers@.map_values(|t: Transfer| t@),
        }
    }
}

/// Rounding down makes a share's weight at most the amount's, exactly it when
/// the division leaves no remainder, and at most the whole scale when the
/// amount is at most the total.
pub proof fn lemma_share_bounds(amount: int, total: int)
    requires
        total > 0,
        amount >= 0,
    ensures
        share(amount, total) >= 0,
        share(amount, total) * total <= amount * SHARE_SCALE,
        (amount * SHARE_SCALE) % total == 0 ==> share(amount, total) * total == amount * SHARE_SCALE,
        amount <= total ==> share(amount, total) <= SHARE_SCALE,
{
    let x: int = amount * SHARE_SCALE;
    let q: int = x / total;
    let r: int = x % total;
    assert(x >= 0) by (nonlinear_arith)
        requires
            amount >= 0,
            x == amount * SHARE_SCALE,
    ;
    lemma_fundamental_div_mod(x, total);
    lemma_mod_pos_bound(x, total);
    lemma_div_pos_is_pos(x, total);
    assert(q * total <= x) by (nonlinear_arith)
        requires
            x == total * q + r,
            r >= 0,
    ;
    if amount <= total {
        assert(q <= SHARE_SCALE) by (nonlinear_arith)
            requires
                total > 0,
                q * total <= x,
                x == amount * SHARE_SCALE,
                amount <= total,
        ;
    }
}

/// The cumulative bound never exceeds the scale times the amounts' share of
/// the total, and is never negative.
pub proof fn lemma_cumulative_bound(bets: Seq<BetView>, total: int)
    requires
        total > 0,
    ensures
        cumulative(bets, total) >= 0,
        cumulative(bets, total) * total <= SHARE_SCALE * sum_amounts(bets),
    decreases bets.len(),
{
    if bets.len() > 0 {
        let rest = bets.drop_last();
        let a: int = bets.last().amount as int;
        lemma_cumulative_bound(rest, total);
        lemma_share_bounds(a, total);
        let c: int = cumulative(rest, total);
        let sh: int = share(a, total);
        let sum: int = sum_amounts(rest);
        assert((c + sh) * total <= SHARE_SCALE * (sum + a)) by (nonlinear_arith)
            requires
                c * total <= SHARE_SCALE * sum,
                sh * total <= a * SHARE_SCALE,
        ;
    }
}

/// Without rounding loss, the cumulative bound is exactly the scale times the
/// amounts' share of the total.
pub proof fn lemma_cumulative_exact(bets: Seq<BetView>, total: int)
    requires
        total > 0,
        forall|i: int| 0 <= i < bets.len() ==> (#[trigger] bets[i].amount * SHARE_SCALE) % total == 0,
    ensures
        cumulative(bets, total) * total == SHARE_SCALE * sum_amounts(bets),
    decreases bets.len(),
{
    if bets.len() > 0 {
        let rest = bets.drop_last();
        let a: int = bets.last().amount as int;
        assert(forall|i: int| 0 <= i < rest.len() ==> rest[i] == bets[i]);
        lemma_cumulative_exact(rest, total);
        assert((bets[bets.len() - 1].amount * SHARE_SCALE) % total == 0);
        lemma_share_bounds(a, total);
        let c: int = cumulative(rest, total);
        let sh: int = share(a, total);
        let sum: int = sum_amounts(rest);
        assert((c + sh) * total == SHARE_SCALE * (sum + a)) by (nonlinear_arith)
            requires
                c * total == SHARE_SCALE * sum,
                sh * total == a * SHARE_SCALE,
        ;
    }
}

/// The bound after one more contribution adds that contribution's share.
pub proof fn lemma_bound_step(bets: Seq<BetView>, total: int, i: int)
    requires
        0 <= i < bets.len(),
    ensures
        bound(bets, total, i + 1) == bound(bets, total, i) + share(bets[i].amount as int, total),
{
    assert(bets.take(i + 1).drop_last() =~= bets.take(i));
}

/// The walk's bounds never decrease.
pub proof fn lemma_bound_monotone(bets: Seq<BetView>, total: int, i: int, j: int)
    requires
        total > 0,
        0 <= i <= j <= bets.len(),
    ensures
        bound(bets, total, i) <= bound(bets, total, j),
    decreases j - i,
{
    if i < j {
        lemma_bound_step(bets, total, j - 1);
        lemma_share_bounds(bets[j - 1].amount as int, total);
        lemma_bound_monotone(bets, total, i, j - 1);
    }
}

/// The cumulative bounds of the walk over a well-formed pool never decrease
/// and never exceed the full scale of 10000; when every share is computed
/// without rounding loss, the last bound is exactly 10000.
pub proof fn lemma_cumulative_walk(pool: PoolView)
    requires
        pool.wf(),
        pool.total > 0,
    ensures
        forall|i: int, j: int|
            0 <= i <= j <= pool.bets.len() ==> #[trigger] bound(pool.bets, pool.total as int, i)
                <= #[trigger] bound(pool.bets, pool.total as int, j),
        bound(pool.bets, pool.total as int, pool.bets.len() as int) <= SHARE_SCALE,
        (forall|i: int|
            0 <= i < pool.bets.len() ==> (#[trigger] pool.bets[i].amount * SHARE_SCALE) % (pool.total as int)
                == 0) ==> bound(pool.bets, pool.total as int, pool.bets.len() as int) == SHARE_SCALE,
{
    let bets = pool.bets;
    let t: int = pool.total as int;
    assert forall|i: int, j: int| 0 <= i <= j <= bets.len() implies #[trigger] bound(bets, t, i)
        <= #[trigger] bound(bets, t, j) by {
        lemma_bound_monotone(bets, t, i, j);
    }
    assert(bets.take(bets.len() as int) =~= bets);
    lemma_cumulative_bound(bets, t);
    let c: int = cumulative(bets, t);
    assert(c <= SHARE_SCALE) by (nonlinear_arith)
        requires
            c * t <= SHARE_SCALE * t,
            t > 0,
    ;
    if forall|i: int| 0 <= i < bets.len() ==> (#[trigger] bets[i].amount * SHARE_SCALE) % t == 0 {
        lemma_cumulative_exact(bets, t);
        assert(c == SHARE_SCALE) by (nonlinear_arith)
            requires
                c * t == SHARE_SCALE * t,
                t > 0,
        ;
    }
}

/// Walks the contributions in order of arrival, accumulating their shares,
/// and returns the index of the first one whose band `(bound, bound + share)`
/// strictly contains `draw`, or `None` when no band does.
pub fn select_winner(pool: &Pool, draw: u128) -> (r: Option<usize>)
    requires
        pool@.wf(),
        0 < pool@.total <= MAX_SETTLED_TOTAL,
    ensures
        match r {
            Some(i) => i < pool@.bets.len() && winner_index(pool@.bets, pool@.total as int, draw as int)
                == Some(i as int),
            None => winner_index(pool@.bets, pool@.total as int, draw as int) == None::<int>,
        },
{
    let ghost bets = pool@.bets;
    let ghost t: int = pool@.total as int;
    let total: u128 = pool.total;
    let n: usize = pool.bets.len();
    let mut previous: u128 = 0;
    let mut i: usize = 0;
    proof {
        assert(bets.take(0) =~= Seq::<BetView>::empty());
    }
    while i < n
        invariant
            0 <= i <= n,
            n == bets.len(),
            bets == pool@.bets,
            t == total,
            t == pool@.total,
            pool@.wf(),
            0 < total <= MAX_SETTLED_TOTAL,
            previous == bound(bets, t, i as int),
            winner_index(bets, t, draw as int) == first_winner_from(bets, t, draw as int, i as int),
        decreases n - i,
    {
        let amount: u128 = pool.bets[i].user_amount;
        proof {
            assert(bets[i as int] == pool.bets@[i as int]@);
            assert(bets[i as int].amount == amount);
            lemma_amount_le_sum(bets, i as int);
            lemma_share_bounds(amount as int, t);
            lemma_bound_step(bets, t, i as int);
            lemma_cumulative_walk(pool@);
            lemma_bound_monotone(bets, t, i as int + 1, n as int);
            assert(amount * SHARE_SCALE <= u128::MAX) by (nonlinear_arith)
                requires
                    amount <= total,
                    total <= MAX_SETTLED_TOTAL,
            ;
            assert(bound(bets, t, n as int) <= SHARE_SCALE);
        }
        let current: u128 = previous + amount * SHARE_SCALE / total;
        if previous < draw && draw < current {
            return Some(i);
        }
        previous = current;
        i = i + 1;
    }
    None
}

/// The fee on a pool total: 4 percent, rounded down.
pub fn fee_for(total: u128) -> (r: u128)
    requires
        total <= MAX_SETTLED_TOTAL,
    ensures
        r == fee_of(total as int),
        r <= total,
{
    let fee: u128 = total * FEE_PERCENT / 100;
    fee
}

/// Settles a non-empty pool: draws the winner with `seed`, splits the total
/// into fee and prize, emits the fee transfer to `admin` and the prize
/// transfer, and resets the pool to empty with its round open.
pub fn settle_pool(pool: &mut Pool, admin: &String, seed: u64) -> (r: Settlement)
    requires
        old(pool)@.wf(),
        0 < old(pool)@.total <= MAX_SETTLED_TOTAL,
    ensures
        r@ == settlement_of(old(pool)@, admin@, seed),
        r.fee + r.prize == old(pool)@.total,
        final(pool)@ == PoolView::cleared(true),
        final(pool)@.wf(),
{
    let draw: u128 = generate_random_value(seed);
    let winner_at: Option<usize> = select_winner(pool, draw);
    let total: u128 = pool.total;
    proof {
        if pool@.bets.len() == 0 {
            assert(sum_amounts(pool@.bets) == 0);
        }
    }
    let denom: String = pool.denomination();
    let fee: u128 = fee_for(total);
    let prize: u128 = total - fee;
    let winner: Option<String> = match winner_at {
        Some(i) => Some(pool.bets[i].user_address.clone()),
        None => None,
    };
    let prize_recipient: String = match &winner {
        Some(w) => w.clone(),
        None => admin.clone(),
    };
    let mut transfers: Vec<Transfer> = Vec::new();
    transfers.push(Transfer { recipient: admin.clone(), amount: fee, denom: denom.clone() });
    transfers.push(Transfer { recipient: prize_recipient, amount: prize, denom });
    let r = Settlement { winner, fee, prize, transfers };
    proof {
        let s = settlement_of(old(pool)@, admin@, seed);
        assert(r@.transfers =~= s.transfers);
        assert(r@.winner == s.winner);
    }
    pool.clear();
    pool.open = true;
    r
}

/// A settlement pays out exactly the pool's total: the fee and the prize sum
/// to it, whatever the total.
pub proof fn lemma_conservation(pool: PoolView, admin: Seq<char>, seed: u64)
    ensures
        settlement_of(pool, admin, seed).fee + settlement_of(pool, admin, seed).prize == pool.total,
        settlement_of(pool, admin, seed).transfers[0].amount + settlement_of(pool, admin, seed).transfers[1].amount
            == pool.total,
{
    let t: int = pool.total as int;
    assert(0 <= t * 4 / 100 <= t) by (nonlinear_arith)
        requires
            t >= 0,
    ;
}

/// The outcome of a settlement is fixed by the pool's contents, the
/// administrator and the seed: equal inputs give the same winner, amounts and
/// transfers.
pub proof fn lemma_settlement_deterministic(
    p1: PoolView,
    p2: PoolView,
    admin1: Seq<char>,
    admin2: Seq<char>,
    seed: u64,
)
    requires
        p1 == p2,
        admin1 == admin2,
    ensures
        settlement_of(p1, admin1, seed) == settlement_of(p2, admin2, seed),
{
}

} // verus!
