use sefi_bet::contract::{attached_funds, contribute, execute, instantiate, settle, toggle_round, Outcome};
use sefi_bet::error::ContractError;
use sefi_bet::lcg::{generate_random_value, Lcg};
use sefi_bet::msg::{ExecuteMsg, Funds, InstantiateMsg};
use sefi_bet::pool::Pool;
use sefi_bet::settlement::{fee_for, select_winner, settle_pool, MAX_SETTLED_TOTAL};
use sefi_bet::state::{State, Tier};

const ADMIN: &str = "admin";
const CUSTODY: &str = "custody";

fn s(x: &str) -> String {
    x.to_string()
}

fn new_state() -> State {
    instantiate(InstantiateMsg { fee_address: s(ADMIN), start_flag: true })
}

fn bet(state: &mut State, tier: Tier, who: &str, amount: u128) -> Result<(), ContractError> {
    contribute(state, tier, &s(who), amount, &s("usei"), &s(CUSTODY)).map(|_| ())
}

fn close(state: &mut State, tier: Tier) {
    toggle_round(state, tier, &s(ADMIN)).unwrap();
}

fn pool_of(amounts: &[u128]) -> Pool {
    let mut pool = Pool::new();
    for (i, a) in amounts.iter().enumerate() {
        pool.record(&format!("user{}", i), *a, &s("usei")).unwrap();
    }
    pool
}

#[test]
fn lcg_steps_once_from_the_seed() {
    let mut lcg = Lcg::new(5);
    assert_eq!(lcg.state, 5);
    let mut zero = Lcg::new(0);
    assert_eq!(zero.next(), 1013904223);
    assert_eq!(zero.state, 1013904223);
    assert_eq!(lcg.next(), (1664525u64 * 5 + 1013904223) % (1u64 << 32));
    let mut big = Lcg::new(u64::MAX);
    assert_eq!(big.next(), 1012239698);
}

#[test]
fn draw_values_are_fixed_by_the_seed() {
    assert_eq!(generate_random_value(0), 4223);
    assert_eq!(generate_random_value(1), 8748);
    assert_eq!(generate_random_value(42), 4273);
    assert_eq!(generate_random_value(u64::MAX), 9698);
    assert_eq!(generate_random_value(1231231809300), 9427);
    assert_eq!(generate_random_value(42), generate_random_value(42));
}

#[test]
fn fee_is_four_percent_rounded_down() {
    assert_eq!(fee_for(200), 8);
    assert_eq!(fee_for(0), 0);
    assert_eq!(fee_for(1), 0);
    assert_eq!(fee_for(25), 1);
    assert_eq!(fee_for(99), 3);
    assert_eq!(fee_for(12345), 493);
}

#[test]
fn settlement_conserves_the_total() {
    for (amounts, seed) in [(vec![1u128], 7u64), (vec![99, 1], 72), (vec![3, 3, 3, 7], 1), (vec![12345], 0)] {
        let mut pool = pool_of(&amounts);
        let total = pool.total;
        pool.toggle();
        let r = settle_pool(&mut pool, &s(ADMIN), seed);
        assert_eq!(r.fee + r.prize, total);
        assert_eq!(r.transfers[0].amount + r.transfers[1].amount, total);
    }
}

#[test]
fn settlement_is_deterministic() {
    let mut results = Vec::new();
    for _ in 0..2 {
        let mut pool = pool_of(&[30, 20, 50]);
        pool.toggle();
        let r = settle_pool(&mut pool, &s(ADMIN), 1234);
        results.push((r.winner, r.fee, r.prize));
    }
    assert_eq!(results[0], results[1]);
}

#[test]
fn walk_bands_are_strict_and_in_order() {
    // shares 5000, 2500, 2500: bands (0, 5000), (5000, 7500), (7500, 10000)
    let pool = pool_of(&[100, 50, 50]);
    assert_eq!(select_winner(&pool, 0), None);
    assert_eq!(select_winner(&pool, 1), Some(0));
    assert_eq!(select_winner(&pool, 4999), Some(0));
    assert_eq!(select_winner(&pool, 5000), None);
    assert_eq!(select_winner(&pool, 5001), Some(1));
    assert_eq!(select_winner(&pool, 7500), None);
    assert_eq!(select_winner(&pool, 9999), Some(2));
}

#[test]
fn walk_with_rounding_loss_leaves_the_top_unselected() {
    // shares 3333 each: the last bound is 9999
    let pool = pool_of(&[1, 1, 1]);
    assert_eq!(select_winner(&pool, 3334), Some(1));
    assert_eq!(select_winner(&pool, 9998), Some(2));
    assert_eq!(select_winner(&pool, 9999), None);
}

#[test]
fn single_contribution_walk() {
    let pool = pool_of(&[7]);
    assert_eq!(select_winner(&pool, 1), Some(0));
    assert_eq!(select_winner(&pool, 9999), Some(0));
}

#[test]
fn ceilings_are_enforced() {
    let mut state = new_state();
    assert_eq!(bet(&mut state, Tier::Whale, "a", 500), Ok(()));
    assert_eq!(bet(&mut state, Tier::Whale, "b", 501), Err(ContractError::ContributionTooLarge));
    assert_eq!(bet(&mut state, Tier::Shrimp, "c", 50), Ok(()));
    assert_eq!(bet(&mut state, Tier::Shrimp, "d", 51), Err(ContractError::ContributionTooLarge));
    assert_eq!(bet(&mut state, Tier::Infinite, "e", 1_000_000_000), Ok(()));
    assert_eq!(state.whale.total, 500);
    assert_eq!(state.shrimp.total, 50);
    assert_eq!(state.whale.bets.len(), 1);
    assert_eq!(state.shrimp.bets.len(), 1);
}

#[test]
fn contribution_past_the_settleable_total_is_refused() {
    let mut state = new_state();
    assert_eq!(bet(&mut state, Tier::Infinite, "a", MAX_SETTLED_TOTAL), Ok(()));
    assert_eq!(bet(&mut state, Tier::Infinite, "b", 1), Err(ContractError::ContributionTooLarge));
    assert_eq!(state.infinite.total, MAX_SETTLED_TOTAL);
}

#[test]
fn zero_contribution_is_refused() {
    let mut state = new_state();
    assert_eq!(bet(&mut state, Tier::Infinite, "a", 0), Err(ContractError::InvalidAmount));
    assert_eq!(bet(&mut state, Tier::Whale, "a", 0), Err(ContractError::InvalidAmount));
    let none: Vec<Funds> = Vec::new();
    let r = execute(&mut state, &s("a"), &none, &s(CUSTODY), ExecuteMsg::AddBetUserShrimp {});
    assert!(matches!(r, Err(ContractError::InvalidAmount)));
    assert!(state.infinite.bets.is_empty() && state.whale.bets.is_empty() && state.shrimp.bets.is_empty());
}

#[test]
fn contributions_need_an_open_round() {
    let mut state = new_state();
    close(&mut state, Tier::Shrimp);
    assert_eq!(bet(&mut state, Tier::Shrimp, "a", 10), Err(ContractError::RoundNotOpen));
    assert_eq!(bet(&mut state, Tier::Shrimp, "a", 100), Err(ContractError::RoundNotOpen));
    assert_eq!(bet(&mut state, Tier::Whale, "a", 10), Ok(()));
    close(&mut state, Tier::Shrimp);
    assert_eq!(bet(&mut state, Tier::Shrimp, "a", 10), Ok(()));
}

#[test]
fn settlement_needs_admin_closed_round_and_funds() {
    let mut state = new_state();
    bet(&mut state, Tier::Whale, "a", 10).unwrap();
    assert!(matches!(settle(&mut state, Tier::Whale, &s("a"), 1), Err(ContractError::Unauthorized)));
    assert!(matches!(settle(&mut state, Tier::Whale, &s(ADMIN), 1), Err(ContractError::RoundStillOpen)));
    assert_eq!(state.whale.total, 10);
    close(&mut state, Tier::Whale);
    assert!(matches!(settle(&mut state, Tier::Whale, &s("a"), 1), Err(ContractError::Unauthorized)));
    assert!(settle(&mut state, Tier::Whale, &s(ADMIN), 1).is_ok());
}

#[test]
fn settlement_of_an_empty_pool_fails_and_changes_nothing() {
    let mut state = new_state();
    bet(&mut state, Tier::Whale, "w", 40).unwrap();
    close(&mut state, Tier::Infinite);
    let r = settle(&mut state, Tier::Infinite, &s(ADMIN), 72);
    assert!(matches!(r, Err(ContractError::EmptyPool)));
    assert!(!state.infinite.open);
    assert!(state.infinite.bets.is_empty());
    assert_eq!(state.infinite.total, 0);
    assert_eq!(state.whale.total, 40);
    assert!(state.whale.open);
}

#[test]
fn non_admin_toggle_is_refused() {
    let mut state = new_state();
    assert_eq!(toggle_round(&mut state, Tier::Infinite, &s("intruder")), Err(ContractError::Unauthorized));
    assert!(state.infinite.open);
    assert_eq!(toggle_round(&mut state, Tier::Infinite, &s(ADMIN)), Ok(()));
    assert!(!state.infinite.open);
    assert!(state.whale.open && state.shrimp.open);
}

#[test]
fn first_contributor_wins_a_low_draw() {
    // seed 72 draws 23, inside the first contributor's band (0, 5000)
    assert_eq!(generate_random_value(72), 23);
    let mut state = new_state();
    bet(&mut state, Tier::Infinite, "first", 100).unwrap();
    bet(&mut state, Tier::Infinite, "second", 50).unwrap();
    bet(&mut state, Tier::Infinite, "third", 50).unwrap();
    close(&mut state, Tier::Infinite);
    let r = settle(&mut state, Tier::Infinite, &s(ADMIN), 72).unwrap();
    assert_eq!(r.winner, Some(s("first")));
    assert_eq!(r.fee, 8);
    assert_eq!(r.prize, 192);
    assert_eq!(r.transfers[1].recipient, "first");
}

#[test]
fn settlement_resets_the_tier_only() {
    let mut state = new_state();
    bet(&mut state, Tier::Infinite, "i", 1000).unwrap();
    bet(&mut state, Tier::Shrimp, "x", 20).unwrap();
    bet(&mut state, Tier::Shrimp, "y", 30).unwrap();
    close(&mut state, Tier::Shrimp);
    let r = settle(&mut state, Tier::Shrimp, &s(ADMIN), 1).unwrap();
    // the fee is taken from the shrimp pool's own total of 50
    assert_eq!(r.fee, 2);
    assert_eq!(r.prize, 48);
    assert!(state.shrimp.bets.is_empty());
    assert_eq!(state.shrimp.total, 0);
    assert!(state.shrimp.open);
    assert_eq!(state.infinite.total, 1000);
    assert_eq!(state.infinite.bets.len(), 1);
}

#[test]
fn draw_on_a_band_edge_selects_nobody() {
    // seed 33325 draws 5000, the edge between two equal shares
    assert_eq!(generate_random_value(33325), 5000);
    let mut state = new_state();
    bet(&mut state, Tier::Whale, "a", 100).unwrap();
    bet(&mut state, Tier::Whale, "b", 100).unwrap();
    close(&mut state, Tier::Whale);
    let r = settle(&mut state, Tier::Whale, &s(ADMIN), 33325).unwrap();
    assert_eq!(r.winner, None);
    assert_eq!(r.fee, 8);
    assert_eq!(r.prize, 192);
    assert_eq!(r.transfers.len(), 2);
    assert_eq!(r.transfers[1].recipient, ADMIN);
    assert!(state.whale.open && state.whale.bets.is_empty());
}

#[test]
fn the_last_attached_coin_is_the_contribution() {
    let funds = vec![Funds { denom: s("a"), amount: 5 }, Funds { denom: s("b"), amount: 7 }];
    assert_eq!(attached_funds(&funds), (7, s("b")));
    assert_eq!(attached_funds(&Vec::new()), (0, String::new()));
    let mut state = new_state();
    let r = execute(&mut state, &s("u"), &funds, &s(CUSTODY), ExecuteMsg::AddBetUserWhale {});
    assert!(matches!(r, Ok(Outcome::Contributed(_))));
    assert_eq!(state.whale.bets[0].coin_type, "b");
    assert_eq!(state.whale.bets[0].user_amount, 7);
    assert_eq!(state.whale.denomination(), "b");
}

#[test]
fn execute_routes_toggles_and_settlements() {
    let mut state = new_state();
    let none: Vec<Funds> = Vec::new();
    let r = execute(&mut state, &s(ADMIN), &none, &s(CUSTODY), ExecuteMsg::ToggleGameWhale {});
    assert!(matches!(r, Ok(Outcome::Toggled)));
    assert!(!state.whale.open && state.infinite.open);
    let r = execute(&mut state, &s(ADMIN), &none, &s(CUSTODY), ExecuteMsg::EndGameWhale { seed: 3 });
    assert!(matches!(r, Err(ContractError::EmptyPool)));
    let r = execute(&mut state, &s(ADMIN), &none, &s(CUSTODY), ExecuteMsg::EndGameShrimp { seed: 3 });
    assert!(matches!(r, Err(ContractError::RoundStillOpen)));
}

#[test]
fn recorded_contributions_keep_their_order() {
    let mut pool = Pool::new();
    assert_eq!(pool.record(&s("a"), 3, &s("x")), Ok(0));
    assert_eq!(pool.record(&s("b"), 4, &s("y")), Ok(1));
    assert_eq!(pool.record(&s("c"), 0, &s("y")), Err(ContractError::InvalidAmount));
    assert_eq!(pool.total(), 7);
    assert_eq!(pool.bets[1].user_order, 2);
    assert_eq!(pool.denomination(), "y");
    pool.toggle();
    assert!(!pool.is_open());
    pool.clear();
    assert_eq!(pool.total(), 0);
    assert!(pool.bets.is_empty());
    assert!(!pool.is_open());
}
