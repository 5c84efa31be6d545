//! The operations on the state: instantiation, contributions, round toggles
//! and settlements, each applied to one tier alone.
use crate::error::ContractError;
use crate::msg::{BetView, ExecuteMsg, Funds, InstantiateMsg, Transfer, TransferView};
use crate::pool::{Pool, PoolView};
use crate::settlement::{settle_pool, settlement_of, Settlement, MAX_SETTLED_TOTAL};
use crate::state::{ceiling_of, lemma_with_pool, State, StateView, Tier};
use vstd::prelude::*;

verus! {

/// Why a contribution of `amount` to `tier` is refused, if it is: the round
/// must be open, the amount within the tier's ceiling and small enough that
/// the pool can still be settled, and positive, checked in that order.
pub open spec fn contribution_error(s: StateView, tier: Tier, amount: u128) -> Option<ContractError> {
    if !s.pool(tier).open {
        Some(ContractError::RoundNotOpen)
    } else if ceiling_of(tier) is Some && amount > ceiling_of(tier)->0 {
        Some(ContractError::ContributionTooLarge)
    } else if s.pool(tier).total + amount > MAX_SETTLED_TOTAL {
        Some(ContractError::ContributionTooLarge)
    } else if amount == 0 {
        Some(ContractError::InvalidAmount)
    } else {
        None
    }
}

/// The pool after `sender` contributed `amount` of `denom`.
pub open spec fn pool_after_contribution(
    p: PoolView,
    sender: Seq<char>,
    amount: u128,
    denom: Seq<char>,
) -> PoolView {
    PoolView {
        bets: p.bets.push(
            BetView { user: sender, amount, order: (p.bets.len() + 1) as u128, denom },
        ),
        total: (p.total + amount) as u128,
        ..p
    }
}

/// What a contribution request does: refused with the error of
/// `contribution_error` and nothing changed, or recorded in the tier's pool
/// with a transfer of the amount into the pool's custody.
pub open spec fn contribution_outcome(
    pre: StateView,
    post: StateView,
    tier: Tier,
    sender: Seq<char>,
    amount: u128,
    denom: Seq<char>,
    custody: Seq<char>,
    r: Result<Transfer, ContractError>,
) -> bool {
    match r {
        Ok(t) => contribution_error(pre, tier, amount) is None && t@ == (TransferView {
            recipient: custody,
            amount,
            denom,
        }) && post == pre.with_pool(
            tier,
            pool_after_contribution(pre.pool(tier), sender, amount, denom),
        ),
        Err(e) => contribution_error(pre, tier, amount) == Some(e) && post == pre,
    }
}

/// What a toggle request does: refused unless the caller is the
/// administrator, else the tier's round flag is flipped.
pub open spec fn toggle_outcome(
    pre: StateView,
    post: StateView,
    tier: Tier,
    sender: Seq<char>,
    r: Result<(), ContractError>,
) -> bool {
    if sender != pre.admin {
        r == Err::<(), ContractError>(ContractError::Unauthorized) && post == pre
    } else {
        r is Ok && post == pre.with_pool(
            tier,
            PoolView { open: !pre.pool(tier).open, ..pre.pool(tier) },
        )
    }
}

/// Why a settlement of `tier` asked for by `sender` is refused, if it is: the
/// caller must be the administrator, the round closed, and the pool non-empty,
/// checked in that order.
pub open spec fn settlement_error(s: StateView, tier: Tier, sender: Seq<char>) -> Option<ContractError> {
    if sender != s.admin {
        Some(ContractError::Unauthorized)
    } else if s.pool(tier).open {
        Some(ContractError::RoundStillOpen)
    } else if s.pool(tier).total == 0 {
        Some(ContractError::EmptyPool)
    } else {
        None
    }
}

/// What a settlement request does: refused with the error of
/// `settlement_error` and nothing changed, or the outcome of `settlement_of`
/// with the tier's pool emptied and its round open again.
pub open spec fn settle_outcome(
    pre: StateView,
    post: StateView,
    tier: Tier,
    sender: Seq<char>,
    seed: u64,
    r: Result<Settlement, ContractError>,
) -> bool {
    match r {
        Ok(s) => settlement_error(pre, tier, sender) is None && s@ == settlement_of(
            pre.pool(tier),
            pre.admin,
            seed,
        ) && post == pre.with_pool(tier, PoolView::cleared(true)),
        Err(e) => settlement_error(pre, tier, sender) == Some(e) && post == pre,
    }
}

/// A new state: `fee_address` is the administrator, every pool is empty and
/// every round open.
pub fn instantiate(msg: InstantiateMsg) -> (r: State)
    ensures
        r@ == (StateView {
            admin: msg.fee_address@,
            infinite: PoolView::cleared(true),
            whale: PoolView::cleared(true),
            shrimp: PoolView::cleared(true),
            start_time: 0,
        }),
        r@.wf(),
{
    let r = State {
        fee_address: msg.fee_address,
        infinite: Pool::new(),
        whale: Pool::new(),
        shrimp: Pool::new(),
        betting_start_time: 0,
    };
    assert(forall|tier: Tier| #[trigger] r@.pool(tier) == PoolView::cleared(true));
    r
}

/// Records a contribution of `amount` of `denom` by `sender` to `tier`, and
/// returns the transfer of that amount into the pool's custody account
/// `custody`. Refused with `RoundNotOpen` when the round is closed, then with
/// `ContributionTooLarge` when the amount exceeds the tier's ceiling or would
/// take the pool's total past `MAX_SETTLED_TOTAL`, then with `InvalidAmount`
/// when it is zero.
pub fn contribute(
    state: &mut State,
    tier: Tier,
    sender: &String,
    amount: u128,
    denom: &String,
    custody: &String,
) -> (r: Result<Transfer, ContractError>)
    requires
        old(state)@.wf(),
    ensures
        final(state)@.wf(),
        contribution_outcome(old(state)@, final(state)@, tier, sender@, amount, denom@, custody@, r),
        r is Ok <==> old(state)@.pool(tier).open && amount > 0 && (ceiling_of(tier) is Some ==> amount
            <= ceiling_of(tier)->0) && old(state)@.pool(tier).total + amount <= MAX_SETTLED_TOTAL,
        old(state)@.pool(tier).open && ceiling_of(tier) is Some && amount > ceiling_of(tier)->0 ==> r
            == Err::<Transfer, ContractError>(ContractError::ContributionTooLarge),
{
    let ghost pre = state@;
    if !state.pool(tier).is_open() {
        return Err(ContractError::RoundNotOpen);
    }
    match tier.ceiling() {
        Some(limit) => {
            if amount > limit {
                return Err(ContractError::ContributionTooLarge);
            }
        },
        None => {},
    }
    if amount > MAX_SETTLED_TOTAL - state.pool(tier).total() {
        return Err(ContractError::ContributionTooLarge);
    }
    assert(pre.pool(tier).wf());
    let ghost after = pool_after_contribution(pre.pool(tier), sender@, amount, denom@);
    let recorded = match tier {
        Tier::Infinite => state.infinite.record(sender, amount, denom),
        Tier::Whale => state.whale.record(sender, amount, denom),
        Tier::Shrimp => state.shrimp.record(sender, amount, denom),
    };
    match recorded {
        Ok(_) => {
            proof {
                lemma_with_pool(pre, tier, after);
                assert(state@ == pre.with_pool(tier, after));
            }
            Ok(Transfer { recipient: custody.clone(), amount, denom: denom.clone() })
        },
        Err(e) => {
            assert(state@ == pre);
            Err(e)
        },
    }
}

/// Flips the round flag of `tier`. Refused with `Unauthorized`, changing
/// nothing, unless `sender` is the administrator.
pub fn toggle_round(state: &mut State, tier: Tier, sender: &String) -> (r: Result<(), ContractError>)
    requires
        old(state)@.wf(),
    ensures
        final(state)@.wf(),
        toggle_outcome(old(state)@, final(state)@, tier, sender@, r),
{
    let ghost pre = state@;
    if *sender != state.fee_address {
        return Err(ContractError::Unauthorized);
    }
    let ghost after = PoolView { open: !pre.pool(tier).open, ..pre.pool(tier) };
    assert(pre.pool(tier).wf() && pre.pool(tier).total <= MAX_SETTLED_TOTAL);
    match tier {
        Tier::Infinite => state.infinite.toggle(),
        Tier::Whale => state.whale.toggle(),
        Tier::Shrimp => state.shrimp.toggle(),
    }
    proof {
        lemma_with_pool(pre, tier, after);
        assert(state@ == pre.with_pool(tier, after));
    }
    Ok(())
}

/// Settles `tier` with `seed`: draws the winner, pays the fee to the
/// administrator and the prize to the winner, and resets the pool to empty
/// with its round open. Refused with `Unauthorized` unless `sender` is the
/// administrator, then with `RoundStillOpen` while the round is open, then
/// with `EmptyPool` when the total is zero; a refusal changes nothing.
pub fn settle(state: &mut State, tier: Tier, sender: &String, seed: u64) -> (r: Result<
    Settlement,
    ContractError,
>)
    requires
        old(state)@.wf(),
    ensures
        final(state)@.wf(),
        settle_outcome(old(state)@, final(state)@, tier, sender@, seed, r),
        r is Ok <==> sender@ == old(state)@.admin && !old(state)@.pool(tier).open && old(state)@.pool(
            tier,
        ).total > 0,
        r matches Ok(s) ==> s.fee + s.prize == old(state)@.pool(tier).total,
        r is Ok ==> final(state)@.pool(tier) == PoolView::cleared(true),
{
    let ghost pre = state@;
    if *sender != state.fee_address {
        return Err(ContractError::Unauthorized);
    }
    let pool: &Pool = state.pool(tier);
    if pool.is_open() {
        return Err(ContractError::RoundStillOpen);
    }
    if pool.total() == 0 {
        return Err(ContractError::EmptyPool);
    }
    assert(pre.pool(tier).wf() && pre.pool(tier).total <= MAX_SETTLED_TOTAL);
    let admin: String = state.fee_address.clone();
    let settlement = match tier {
        Tier::Infinite => settle_pool(&mut state.infinite, &admin, seed),
        Tier::Whale => settle_pool(&mut state.whale, &admin, seed),
        Tier::Shrimp => settle_pool(&mut state.shrimp, &admin, seed),
    };
    proof {
        lemma_with_pool(pre, tier, PoolView::cleared(true));
        assert(state@ == pre.with_pool(tier, PoolView::cleared(true)));
    }
    Ok(settlement)
}

/// The amount and denomination of the last coin attached to a request; zero
/// and an empty denomination when none is attached.
pub open spec fn attached_of(funds: Seq<Funds>) -> (u128, Seq<char>) {
    if funds.len() == 0 {
        (0, Seq::empty())
    } else {
        (funds.last().amount, funds.last().denom@)
    }
}

/// The amount and denomination of the last coin attached to a request; zero
/// and an empty denomination when none is attached.
pub fn attached_funds(funds: &Vec<Funds>) -> (r: (u128, String))
    ensures
        r.0 == attached_of(funds@).0,
        r.1@ == attached_of(funds@).1,
{
    let n: usize = funds.len();
    if n == 0 {
        (0, String::new())
    } else {
        (funds[n - 1].amount, funds[n - 1].denom.clone())
    }
}

/// What an operation returns on success.
pub enum Outcome {
    /// A contribution was recorded; the transfer moves it into custody.
    Contributed(Transfer),
    /// A round flag was flipped.
    Toggled,
    /// A round was settled.
    Settled(Settlement),
}

/// The contribution's result within an operation's result, if it is one.
pub open spec fn as_contribution(r: Result<Outcome, ContractError>) -> Option<Result<Transfer, ContractError>> {
    match r {
        Ok(Outcome::Contributed(t)) => Some(Ok(t)),
        Err(e) => Some(Err(e)),
        _ => None,
    }
}

/// The toggle's result within an operation's result, if it is one.
pub open spec fn as_toggle(r: Result<Outcome, ContractError>) -> Option<Result<(), ContractError>> {
    match r {
        Ok(Outcome::Toggled) => Some(Ok(())),
        Err(e) => Some(Err(e)),
        _ => None,
    }
}

/// The settlement's result within an operation's result, if it is one.
pub open spec fn as_settlement(r: Result<Outcome, ContractError>) -> Option<Result<Settlement, ContractError>> {
    match r {
        Ok(Outcome::Settled(s)) => Some(Ok(s)),
        Err(e) => Some(Err(e)),
        _ => None,
    }
}

/// What `execute` does for a message: the contribution, toggle or settlement
/// of the tier the message names, with the last attached coin as the
/// contribution.
pub open spec fn execute_outcome(
    pre: StateView,
    post: StateView,
    sender: Seq<char>,
    funds: Seq<Funds>,
    custody: Seq<char>,
    msg: ExecuteMsg,
    r: Result<Outcome, ContractError>,
) -> bool {
    let (amount, denom) = attached_of(funds);
    match msg {
        ExecuteMsg::AddBetUserInfinite {  } => as_contribution(r) matches Some(c) && contribution_outcome(
            pre, post, Tier::Infinite, sender, amount, denom, custody, c),
        ExecuteMsg::AddBetUserWhale {  } => as_contribution(r) matches Some(c) && contribution_outcome(
            pre, post, Tier::Whale, sender, amount, denom, custody, c),
        ExecuteMsg::AddBetUserShrimp {  } => as_contribution(r) matches Some(c) && contribution_outcome(
            pre, post, Tier::Shrimp, sender, amount, denom, custody, c),
        ExecuteMsg::ToggleGameInfinte {  } => as_toggle(r) matches Some(c) && toggle_outcome(
            pre, post, Tier::Infinite, sender, c),
        ExecuteMsg::ToggleGameWhale {  } => as_toggle(r) matches Some(c) && toggle_outcome(
            pre, post, Tier::Whale, sender, c),
        ExecuteMsg::ToggleGameShrimp {  } => as_toggle(r) matches Some(c) && toggle_outcome(
            pre, post, Tier::Shrimp, sender, c),
        ExecuteMsg::EndGameInfinte { seed } => as_settlement(r) matches Some(c) && settle_outcome(
            pre, post, Tier::Infinite, sender, seed, c),
        ExecuteMsg::EndGameWhale { seed } => as_settlement(r) matches Some(c) && settle_outcome(
            pre, post, Tier::Whale, sender, seed, c),
        ExecuteMsg::EndGameShrimp { seed } => as_settlement(r) matches Some(c) && settle_outcome(
            pre, post, Tier::Shrimp, sender, seed, c),
    }
}

/// Applies one message from `sender`, with `funds` attached, to the state.
/// `custody` is the account that holds the pools' funds.
pub fn execute(
    state: &mut State,
    sender: &String,
    funds: &Vec<Funds>,
    custody: &String,
    msg: ExecuteMsg,
) -> (r: Result<Outcome, ContractError>)
    requires
        old(state)@.wf(),
    ensures
        final(state)@.wf(),
        execute_outcome(old(state)@, final(state)@, sender@, funds@, custody@, msg, r),
{
    match msg {
        ExecuteMsg::AddBetUserInfinite {  } => contribute_attached(state, Tier::Infinite, sender, funds, custody),
        ExecuteMsg::AddBetUserWhale {  } => contribute_attached(state, Tier::Whale, sender, funds, custody),
        ExecuteMsg::AddBetUserShrimp {  } => contribute_attached(state, Tier::Shrimp, sender, funds, custody),
        ExecuteMsg::ToggleGameInfinte {  } => toggle_outcome_of(state, Tier::Infinite, sender),
        ExecuteMsg::ToggleGameWhale {  } => toggle_outcome_of(state, Tier::Whale, sender),
        ExecuteMsg::ToggleGameShrimp {  } => toggle_outcome_of(state, Tier::Shrimp, sender),
        ExecuteMsg::EndGameInfinte { seed } => settle_outcome_of(state, Tier::Infinite, sender, seed),
        ExecuteMsg::EndGameWhale { seed } => settle_outcome_of(state, Tier::Whale, sender, seed),
        ExecuteMsg::EndGameShrimp { seed } => settle_outcome_of(state, Tier::Shrimp, sender, seed),
    }
}

/// A contribution of the last attached coin to `tier`.
fn contribute_attached(
    state: &mut State,
    tier: Tier,
    sender: &String,
    funds: &Vec<Funds>,
    custody: &String,
) -> (r: Result<Outcome, ContractError>)
    requires
        old(state)@.wf(),
    ensures
        final(state)@.wf(),
        as_contribution(r) matches Some(c) && contribution_outcome(
            old(state)@,
            final(state)@,
            tier,
            sender@,
            attached_of(funds@).0,
            attached_of(funds@).1,
            custody@,
            c,
        ),
{
    let (amount, denom) = attached_funds(funds);
    match contribute(state, tier, sender, amount, &denom, custody) {
        Ok(t) => Ok(Outcome::Contributed(t)),
        Err(e) => Err(e),
    }
}

/// A toggle of `tier`, as an operation's result.
fn toggle_outcome_of(state: &mut State, tier: Tier, sender: &String) -> (r: Result<Outcome, ContractError>)
    requires
        old(state)@.wf(),
    ensures
        final(state)@.wf(),
        as_toggle(r) matches Some(c) && toggle_outcome(old(state)@, final(state)@, tier, sender@, c),
{
    match toggle_round(state, tier, sender) {
        Ok(()) => Ok(Outcome::Toggled),
        Err(e) => Err(e),
    }
}

/// A settlement of `tier`, as an operation's result.
fn settle_outcome_of(state: &mut State, tier: Tier, sender: &String, seed: u64) -> (r: Result<
    Outcome,
    ContractError,
>)
    requires
        old(state)@.wf(),
    ensures
        final(state)@.wf(),
        as_settlement(r) matches Some(c) && settle_outcome(old(state)@, final(state)@, tier, sender@, seed, c),
{
    match settle(state, tier, sender, seed) {
        Ok(s) => Ok(Outcome::Settled(s)),
        Err(e) => Err(e),
    }
}

} // verus!
