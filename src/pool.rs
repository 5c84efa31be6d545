//! The pool ledger and round flag of one tier.
use crate::error::ContractError;
use crate::msg::{BetView, UserBetInfo};
use vstd::prelude::*;

verus! {

/// Sum of the amounts of a sequence of contributions.
pub open spec fn sum_amounts(bets: Seq<BetView>) -> int
    decreases bets.len(),
{
    if bets.len() == 0 {
        0
    } else {
        sum_amounts(bets.drop_last()) + bets.last().amount
    }
}

/// Mathematical model of a pool: its contributions in order of arrival, its
/// running total, and whether its round is open.
pub struct PoolView {
    pub bets: Seq<BetView>,
    pub total: u128,
    pub open: bool,
}

impl PoolView {
    /// The running total is the sum of the amounts, every amount is positive,
    /// and each contribution's rank is its position plus one.
    pub open spec fn wf(self) -> bool {
        &&& self.total == sum_amounts(self.bets)
        &&& forall|i: int|
            0 <= i < self.bets.len() ==> {
                &&& (#[trigger] self.bets[i]).amount > 0
                &&& self.bets[i].order == i + 1
            }
    }

    /// A pool with no contributions and the given round flag.
    pub open spec fn cleared(open: bool) -> PoolView {
        PoolView { bets: Seq::empty(), total: 0, open }
    }
}

/// The contributions of one tier's current round, their total, and the
/// round flag (`true`: open, accepting contributions).
pub struct Pool {
    pub bets: Vec<UserBetInfo>,
    pub total: u128,
    pub open: bool,
}

impl View for Pool {
    type V = PoolView;

    open spec fn view(&self) -> PoolView {
        PoolView { bets: self.bets@.map_values(|b: UserBetInfo| b@), total: self.total, open: self.open }
    }
}

/// Appending one contribution adds its amount to the sum.
pub proof fn lemma_sum_push(bets: Seq<BetView>, b: BetView)
    ensures
        sum_amounts(bets.push(b)) == sum_amounts(bets) + b.amount,
{
    assert(bets.push(b).drop_last() =~= bets);
}

/// A sum of amounts is never negative.
pub proof fn lemma_sum_nonneg(bets: Seq<BetView>)
    ensures
        sum_amounts(bets) >= 0,
    decreases bets.len(),
{
    if bets.len() > 0 {
        lemma_sum_nonneg(bets.drop_last());
    }
}

/// Each amount is at most the sum of all of them.
pub proof fn lemma_amount_le_sum(bets: Seq<BetView>, i: int)
    requires
        0 <= i < bets.len(),
    ensures
        bets[i].amount <= sum_amounts(bets),
{
    lemma_sum_nonneg(bets.take(i));
    assert(bets.take(i + 1).drop_last() =~= bets.take(i));
    lemma_sum_prefix_monotone(bets, i + 1, bets.len() as int);
    assert(bets.take(bets.len() as int) =~= bets);
}

/// The sum over a longer prefix is at least the sum over a shorter one.
pub proof fn lemma_sum_prefix_monotone(bets: Seq<BetView>, i: int, j: int)
    requires
        0 <= i <= j <= bets.len(),
    ensures
        sum_amounts(bets.take(i)) <= sum_amounts(bets.take(j)),
    decreases j - i,
{
    if i < j {
        assert(bets.take(j).drop_last() =~= bets.take(j - 1));
        lemma_sum_prefix_monotone(bets, i, j - 1);
    }
}

impl Pool {
    /// An empty pool whose round is open.
    pub fn new() -> (r: Pool)
        ensures
            r@ == PoolView::cleared(true),
            r@.wf(),
    {
        let r = Pool { bets: Vec::new(), total: 0, open: true };
        assert(r@.bets =~= Seq::<BetView>::empty());
        r
    }

    /// Whether the round accepts contributions.
    pub fn is_open(&self) -> (r: bool)
        ensures
            r == self@.open,
    {
        self.open
    }

    /// The running total of the contributions.
    pub fn total(&self) -> (r: u128)
        ensures
            r == self@.total,
    {
        self.total
    }

    /// Flips the round flag; the contributions are kept.
    pub fn toggle(&mut self)
        ensures
            final(self)@ == (PoolView { open: !old(self)@.open, ..old(self)@ }),
    {
        self.open = !self.open;
    }

    /// Appends a contribution and adds its amount to the total, returning its
    /// 0-based sequence index. A zero amount is refused with `InvalidAmount`
    /// and changes nothing.
    pub fn record(&mut self, user: &String, amount: u128, denom: &String) -> (r: Result<
        usize,
        ContractError,
    >)
        requires
            old(self)@.wf(),
            old(self)@.total + amount <= u128::MAX,
        ensures
            final(self)@.wf(),
            amount == 0 ==> r == Err::<usize, ContractError>(ContractError::InvalidAmount)
                && final(self)@ == old(self)@,
            amount > 0 ==> r == Ok::<usize, ContractError>(old(self)@.bets.len() as usize)
                && final(self)@ == (PoolView {
                bets: old(self)@.bets.push(
                    BetView {
                        user: user@,
                        amount,
                        order: (old(self)@.bets.len() + 1) as u128,
                        denom: denom@,
                    },
                ),
                total: (old(self)@.total + amount) as u128,
                ..old(self)@
            }),
    {
        if amount == 0 {
            return Err(ContractError::InvalidAmount);
        }
        let index: usize = self.bets.len();
        let bet = UserBetInfo {
            user_address: user.clone(),
            user_amount: amount,
            user_order: index as u128 + 1,
            coin_type: denom.clone(),
        };
        let ghost old_bets = self@.bets;
        proof {
            lemma_sum_push(old_bets, bet@);
        }
        self.bets.push(bet);
        self.total = self.total + amount;
        assert(self@.bets =~= old_bets.push(bet@));
        Ok(index)
    }

    /// Removes every contribution and zeroes the total; the round flag is kept.
    pub fn clear(&mut self)
        ensures
            final(self)@ == PoolView::cleared(old(self)@.open),
            final(self)@.wf(),
    {
        self.bets = Vec::new();
        self.total = 0;
        assert(self@.bets =~= Seq::<BetView>::empty());
    }

    /// Whether the pool is well formed with a total of at most `limit`; used
    /// to check a pool read back from storage.
    pub fn is_well_formed(&self, limit: u128) -> (r: bool)
        ensures
            r == (self@.wf() && self@.total <= limit),
    {
        let ghost bets = self@.bets;
        let n: usize = self.bets.len();
        let mut sum: u128 = 0;
        let mut i: usize = 0;
        proof {
            assert(bets.take(0) =~= Seq::<BetView>::empty());
            assert(bets.take(n as int) =~= bets);
        }
        while i < n
            invariant
                0 <= i <= n,
                n == bets.len(),
                bets == self@.bets,
                sum == sum_amounts(bets.take(i as int)),
                sum <= self.total,
                bets.take(n as int) == bets,
                forall|j: int|
                    0 <= j < i ==> {
                        &&& (#[trigger] bets[j]).amount > 0
                        &&& bets[j].order == j + 1
                    },
            decreases n - i,
        {
            let bet = &self.bets[i];
            assert(bets[i as int] == bet@);
            assert(bets.take(i as int + 1).drop_last() =~= bets.take(i as int));
            if bet.user_amount == 0 || bet.user_order != i as u128 + 1 {
                return false;
            }
            if bet.user_amount > self.total - sum {
                proof {
                    lemma_sum_prefix_monotone(bets, i as int + 1, n as int);
                }
                return false;
            }
            sum = sum + bet.user_amount;
            i = i + 1;
        }
        sum == self.total && self.total <= limit
    }

    /// The pool's denomination: that of its most recent contribution.
    pub fn denomination(&self) -> (r: String)
        requires
            self@.bets.len() > 0,
        ensures
            r@ == self@.bets.last().denom,
    {
        self.bets[self.bets.len() - 1].coin_type.clone()
    }
}

} // verus!
