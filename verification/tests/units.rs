//! Unit checks of the arithmetic, share conversions and the feed registry.

use lending::math::checked_add_u64;
use lending::math::checked_mul_u64;
use lending::math::checked_sub_u64;
use lending::math::mul_div_ceil;
use lending::math::mul_div_floor;
use lending::registry::resolve_feed;
use lending::registry::store_symbol_feed_id;
use lending::registry::FeedRegistry;
use lending::shares::amount_to_shares;
use lending::shares::amount_to_shares_round_up;
use lending::shares::shares_to_amount;
use lending::shares::shares_to_amount_round_up;
use lending::state::init_bank;
use lending::state::init_user;
use lending::ErrorCode;

#[test]
fn checked_arithmetic_is_exact() {
    assert_eq!(checked_add_u64(2, 3), Ok(5));
    assert_eq!(checked_add_u64(u64::MAX, 1), Err(ErrorCode::MathOverflow));
    assert_eq!(checked_sub_u64(5, 3), Ok(2));
    assert_eq!(checked_sub_u64(3, 5), Err(ErrorCode::MathOverflow));
    assert_eq!(checked_mul_u64(6, 7), Ok(42));
    assert_eq!(
        checked_mul_u64(1 << 32, 1 << 32),
        Err(ErrorCode::MathOverflow)
    );
}

#[test]
fn mul_div_rounds_in_the_stated_direction() {
    assert_eq!(mul_div_floor(7, 3, 2), Ok(10));
    assert_eq!(mul_div_ceil(7, 3, 2), Ok(11));
    assert_eq!(mul_div_floor(8, 3, 2), Ok(12));
    assert_eq!(mul_div_ceil(8, 3, 2), Ok(12));
    // a 128-bit intermediate keeps large products exact
    assert_eq!(mul_div_floor(u64::MAX, u64::MAX, u64::MAX), Ok(u64::MAX));
    assert_eq!(mul_div_floor(1, 1, 0), Err(ErrorCode::MathOverflow));
    assert_eq!(mul_div_ceil(1, 1, 0), Err(ErrorCode::MathOverflow));
    assert_eq!(mul_div_floor(u64::MAX, 2, 1), Err(ErrorCode::MathOverflow));
}

#[test]
fn share_conversions_bootstrap_and_round() {
    // an empty pool issues one share per unit
    assert_eq!(amount_to_shares(500, 0, 0), Ok(500));
    assert_eq!(amount_to_shares_round_up(500, 0, 0), Ok(500));
    // pool of 1500 units over 1000 shares: one share is worth 1.5
    assert_eq!(amount_to_shares(100, 1500, 1000), Ok(66));
    assert_eq!(amount_to_shares_round_up(100, 1500, 1000), Ok(67));
    assert_eq!(shares_to_amount(67, 1500, 1000), Ok(100));
    assert_eq!(shares_to_amount_round_up(67, 1500, 1000), Ok(101));
    // no shares claim nothing
    assert_eq!(shares_to_amount(0, 1500, 1000), Ok(0));
    assert_eq!(shares_to_amount(5, 0, 0), Ok(0));
}

#[test]
fn init_bank_records_the_parameters() {
    let bank = init_bank(7, 42, 8500, 1000, 5000, 8000, 100, 123);
    assert_eq!(bank.authority, 7);
    assert_eq!(bank.mint_address, 42);
    assert_eq!(bank.liquidation_threshold, 8500);
    assert_eq!(bank.liquidation_bonus, 1000);
    assert_eq!(bank.liquidation_close_factor, 5000);
    assert_eq!(bank.max_ltv, 8000);
    assert_eq!(bank.interest_rate, 100);
    assert_eq!(bank.last_updated, 123);
    assert_eq!(bank.total_deposited, 0);
    assert_eq!(bank.total_borrowed, 0);
    assert_eq!(bank.total_deposited_shares, 0);
    assert_eq!(bank.total_borrowed_shares, 0);
}

#[test]
fn init_user_starts_empty() {
    let user = init_user(9);
    assert_eq!(user.owner, 9);
    assert_eq!(user.deposited_amount, 0);
    assert_eq!(user.deposited_shares, 0);
    assert_eq!(user.borrowed_amount, 0);
    assert_eq!(user.borrowed_shares, 0);
}

#[test]
fn registry_resolves_the_newest_binding() {
    let mut registry = FeedRegistry::new();
    assert!(resolve_feed(&registry, &String::from("SOL")).is_none());
    store_symbol_feed_id(&mut registry, String::from("SOL"), String::from("feed-sol-1"));
    store_symbol_feed_id(&mut registry, String::from("USDC"), String::from("feed-usdc-1"));
    assert_eq!(
        resolve_feed(&registry, &String::from("SOL")),
        Some(String::from("feed-sol-1"))
    );
    assert_eq!(
        resolve_feed(&registry, &String::from("USDC")),
        Some(String::from("feed-usdc-1"))
    );
    assert!(resolve_feed(&registry, &String::from("BTC")).is_none());
    // re-registering a symbol supersedes the earlier feed
    store_symbol_feed_id(&mut registry, String::from("SOL"), String::from("feed-sol-2"));
    assert_eq!(
        resolve_feed(&registry, &String::from("SOL")),
        Some(String::from("feed-sol-2"))
    );
}
