//! The whole persisted state: the administrator and the three tiers.
use crate::pool::{Pool, PoolView};
use crate::settlement::MAX_SETTLED_TOTAL;
use vstd::prelude::*;

verus! {

/// Ceiling of a single contribution to the high-ceiling tier.
pub const WHALE_CEILING: u128 = 500;

/// Ceiling of a single contribution to the low-ceiling tier.
pub const SHRIMP_CEILING: u128 = 50;

/// One of the three independent pools.
#[derive(Clone, Copy, Debug, PartialEq, Eq, Structural)]
pub enum Tier {
    /// No ceiling on a contribution.
    Infinite,
    /// High ceiling.
    Whale,
    /// Low ceiling.
    Shrimp,
}

/// The largest single contribution a tier accepts, if it has a ceiling.
pub open spec fn ceiling_of(tier: Tier) -> Option<u128> {
    match tier {
        Tier::Infinite => None,
        Tier::Whale => Some(WHALE_CEILING),
        Tier::Shrimp => Some(SHRIMP_CEILING),
    }
}

impl Tier {
    /// The largest single contribution this tier accepts, if it has a ceiling.
    pub fn ceiling(&self) -> (r: Option<u128>)
        ensures
            r == ceiling_of(*self),
    {
        match self {
            Tier::Infinite => None,
            Tier::Whale => Some(WHALE_CEILING),
            Tier::Shrimp => Some(SHRIMP_CEILING),
        }
    }
}

/// Mathematical model of the state.
pub struct StateView {
    pub admin: Seq<char>,
    pub infinite: PoolView,
    pub whale: PoolView,
    pub shrimp: PoolView,
    pub start_time: u128,
}

impl StateView {
    /// The pool of a tier.
    pub open spec fn pool(self, tier: Tier) -> PoolView {
        match tier {
            Tier::Infinite => self.infinite,
            Tier::Whale => self.whale,
            Tier::Shrimp => self.shrimp,
        }
    }

    /// The state with one tier's pool replaced and everything else kept.
    pub open spec fn with_pool(self, tier: Tier, p: PoolView) -> StateView {
        match tier {
            Tier::Infinite => StateView { infinite: p, ..self },
            Tier::Whale => StateView { whale: p, ..self },
            Tier::Shrimp => StateView { shrimp: p, ..self },
        }
    }

    /// Every pool is well formed and small enough to be settled.
    pub open spec fn wf(self) -> bool {
        forall|tier: Tier|
            #![trigger self.pool(tier)]
            self.pool(tier).wf() && self.pool(tier).total <= MAX_SETTLED_TOTAL
    }
}

/// The administrator identity, which also receives the fees, and the pool and
/// round flag of each tier.
pub struct State {
    pub fee_address: String,
    pub infinite: Pool,
    pub whale: Pool,
    pub shrimp: Pool,
    pub betting_start_time: u128,
}

impl View for State {
    type V = StateView;

    open spec fn view(&self) -> StateView {
        StateView {
            admin: self.fee_address@,
            infinite: self.infinite@,
            whale: self.whale@,
            shrimp: self.shrimp@,
            start_time: self.betting_start_time,
        }
    }
}

impl State {
    /// Whether every pool is well formed and small enough to be settled; used
    /// to check a state read back from storage.
    pub fn is_well_formed(&self) -> (r: bool)
        ensures
            r == self@.wf(),
    {
        let r = self.infinite.is_well_formed(MAX_SETTLED_TOTAL) && self.whale.is_well_formed(
            MAX_SETTLED_TOTAL,
        ) && self.shrimp.is_well_formed(MAX_SETTLED_TOTAL);
        proof {
            if r {
                assert forall|t: Tier| #[trigger] self@.pool(t).wf() && self@.pool(t).total
                    <= MAX_SETTLED_TOTAL by {
                    match t {
                        Tier::Infinite => {},
                        Tier::Whale => {},
                        Tier::Shrimp => {},
                    }
                }
            } else {
                assert(!self@.pool(Tier::Infinite).wf() || !self@.pool(Tier::Whale).wf()
                    || !self@.pool(Tier::Shrimp).wf() || self@.pool(Tier::Infinite).total
                    > MAX_SETTLED_TOTAL || self@.pool(Tier::Whale).total > MAX_SETTLED_TOTAL
                    || self@.pool(Tier::Shrimp).total > MAX_SETTLED_TOTAL);
            }
        }
        r
    }

    /// The pool of a tier.
    pub fn pool(&self, tier: Tier) -> (r: &Pool)
        ensures
            r@ == self@.pool(tier),
    {
        match tier {
            Tier::Infinite => &self.infinite,
            Tier::Whale => &self.whale,
            Tier::Shrimp => &self.shrimp,
        }
    }
}

/// Replacing one tier's pool by a well-formed, settleable pool keeps the
/// state well formed and leaves the other tiers as they were.
pub proof fn lemma_with_pool(s: StateView, tier: Tier, p: PoolView)
    requires
        s.wf(),
        p.wf(),
        p.total <= MAX_SETTLED_TOTAL,
    ensures
        s.with_pool(tier, p).wf(),
        s.with_pool(tier, p).pool(tier) == p,
        forall|t: Tier| t != tier ==> #[trigger] s.with_pool(tier, p).pool(t) == s.pool(t),
        s.with_pool(tier, p).admin == s.admin,
{
    assert forall|t: Tier| #[trigger] s.with_pool(tier, p).pool(t).wf() && s.with_pool(tier, p).pool(
        t,
    ).total <= MAX_SETTLED_TOTAL by {
        assert(s.pool(t).wf() && s.pool(t).total <= MAX_SETTLED_TOTAL);
    }
}

} // verus!
