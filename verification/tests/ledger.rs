//! End-to-end scenarios for the lending ledger.

use lending::accrual::accrue;
use lending::liquidation::liquidate;
use lending::ops::borrow;
use lending::ops::deposit;
use lending::ops::repay;
use lending::ops::withdraw;
use lending::risk::health_factor;
use lending::risk::read_price;
use lending::risk::PriceReading;
use lending::state::init_bank;
use lending::state::init_user;
use lending::state::Bank;
use lending::state::User;
use lending::ErrorCode;

fn price(p: u64) -> PriceReading {
    PriceReading { price: p, valid: true }
}

fn stale_price(p: u64) -> PriceReading {
    PriceReading { price: p, valid: false }
}

/// A fresh pool: threshold 0.85, bonus 0.10, close factor 0.50,
/// max LTV 0.80, rate 1% per time unit.
fn fresh_bank(mint: u64) -> Bank {
    init_bank(7, mint, 8500, 1000, 5000, 8000, 100, 0)
}

/// Collateral in pool 1 and a debt pool 2 with 10_000 idle units.
fn funded_pair() -> (Bank, Bank, User, User) {
    let mut collateral_bank = fresh_bank(1);
    let mut debt_bank = fresh_bank(2);
    let mut borrower = init_user(11);
    let mut funder = init_user(12);
    deposit(&mut collateral_bank, &mut borrower, 1000, 0).unwrap();
    deposit(&mut debt_bank, &mut funder, 10_000, 0).unwrap();
    (collateral_bank, debt_bank, borrower, funder)
}

#[test]
fn bootstrap_deposit_is_one_for_one() {
    let mut bank = fresh_bank(1);
    let mut user = init_user(9);
    let moved = deposit(&mut bank, &mut user, 1000, 0).unwrap();
    assert_eq!(moved, 1000);
    assert_eq!(bank.total_deposited, 1000);
    assert_eq!(bank.total_deposited_shares, 1000);
    assert_eq!(user.deposited_shares, 1000);
    assert_eq!(user.deposited_amount, 1000);
}

#[test]
fn bootstrap_round_trip_returns_exactly_the_deposit() {
    let mut bank = fresh_bank(1);
    let mut debt_bank = fresh_bank(2);
    let mut user = init_user(9);
    deposit(&mut bank, &mut user, 1000, 0).unwrap();
    let back = withdraw(
        &mut bank,
        &mut debt_bank,
        &mut user,
        1000,
        &price(1),
        &price(1),
        0,
    )
    .unwrap();
    assert_eq!(back, 1000);
    assert_eq!(bank.total_deposited, 0);
    assert_eq!(bank.total_deposited_shares, 0);
    assert_eq!(user.deposited_shares, 0);
    assert_eq!(user.deposited_amount, 0);
}

#[test]
fn deposit_of_zero_is_rejected() {
    let mut bank = fresh_bank(1);
    let mut user = init_user(9);
    assert_eq!(
        deposit(&mut bank, &mut user, 0, 0),
        Err(ErrorCode::BorrowAmountTooLarge)
    );
    assert_eq!(bank.total_deposited, 0);
}

#[test]
fn deposit_overflow_is_math_overflow() {
    let mut bank = fresh_bank(1);
    let mut user = init_user(9);
    deposit(&mut bank, &mut user, u64::MAX, 0).unwrap();
    assert_eq!(
        deposit(&mut bank, &mut user, 1, 0),
        Err(ErrorCode::MathOverflow)
    );
}

#[test]
fn share_price_never_falls_under_deposits_and_accrual() {
    let (mut collateral_bank, mut debt_bank, mut borrower, mut funder) = funded_pair();
    borrow(
        &mut debt_bank,
        &mut collateral_bank,
        &mut borrower,
        800,
        &price(1),
        &price(1),
        0,
    )
    .unwrap();
    let mut last = (debt_bank.total_deposited, debt_bank.total_deposited_shares);
    for step in 1..6 {
        let now = step * 10;
        accrue(&mut debt_bank, now).unwrap();
        deposit(&mut debt_bank, &mut funder, 333, now).unwrap();
        let cur = (debt_bank.total_deposited, debt_bank.total_deposited_shares);
        // price(last) <= price(cur), cross-multiplied
        assert!((last.0 as u128) * (cur.1 as u128) <= (cur.0 as u128) * (last.1 as u128));
        last = cur;
    }
}

#[test]
fn conservation_across_positions() {
    let mut bank = fresh_bank(1);
    let mut a = init_user(1);
    let mut b = init_user(2);
    let mut c = init_user(3);
    deposit(&mut bank, &mut a, 997, 0).unwrap();
    deposit(&mut bank, &mut b, 313, 0).unwrap();
    deposit(&mut bank, &mut c, 7, 0).unwrap();
    let claims: u64 = [a, b, c]
        .iter()
        .map(|u| {
            lending::shares::shares_to_amount(
                u.deposited_shares,
                bank.total_deposited,
                bank.total_deposited_shares,
            )
            .unwrap()
        })
        .sum();
    assert!(claims <= bank.total_deposited);
}

#[test]
fn liquidity_is_never_negative() {
    let (mut collateral_bank, mut debt_bank, mut borrower, mut funder) = funded_pair();
    borrow(
        &mut debt_bank,
        &mut collateral_bank,
        &mut borrower,
        800,
        &price(10),
        &price(10),
        0,
    )
    .unwrap();
    assert!(debt_bank.total_borrowed <= debt_bank.total_deposited);
    // the funder cannot pull liquidity below the outstanding debt
    assert_eq!(
        withdraw(
            &mut debt_bank,
            &mut collateral_bank,
            &mut funder,
            9300,
            &price(10),
            &price(10),
            0,
        ),
        Err(ErrorCode::OverWithdrawRequest)
    );
    assert!(debt_bank.total_borrowed <= debt_bank.total_deposited);
}

#[test]
fn ltv_gate_permits_800_of_1000_but_not_801() {
    let (mut collateral_bank, mut debt_bank, mut borrower, _) = funded_pair();
    // collateral value 1000, max LTV 0.8: 801 is over the line
    assert_eq!(
        borrow(
            &mut debt_bank,
            &mut collateral_bank,
            &mut borrower,
            801,
            &price(1),
            &price(1),
            0,
        ),
        Err(ErrorCode::OverBorrowableAmount)
    );
    assert_eq!(borrower.borrowed_shares, 0);
    let drawn = borrow(
        &mut debt_bank,
        &mut collateral_bank,
        &mut borrower,
        800,
        &price(1),
        &price(1),
        0,
    )
    .unwrap();
    assert_eq!(drawn, 800);
    assert_eq!(borrower.borrowed_amount, 800);
    assert_eq!(debt_bank.total_borrowed, 800);
}

#[test]
fn borrow_past_idle_liquidity_is_over_borrow_request() {
    let (mut collateral_bank, mut debt_bank, mut borrower, _) = funded_pair();
    assert_eq!(
        borrow(
            &mut debt_bank,
            &mut collateral_bank,
            &mut borrower,
            10_001,
            &price(1),
            &price(1),
            0,
        ),
        Err(ErrorCode::OverBorrowRequest)
    );
}

#[test]
fn liquidity_gate_answers_before_the_oracle_is_read() {
    // an over-liquidity request is refused for that reason even while the
    // oracle is down: the liquidity check needs no price
    let (mut collateral_bank, mut debt_bank, mut borrower, _) = funded_pair();
    assert_eq!(
        borrow(
            &mut debt_bank,
            &mut collateral_bank,
            &mut borrower,
            10_001,
            &stale_price(1),
            &stale_price(1),
            0,
        ),
        Err(ErrorCode::OverBorrowRequest)
    );
}

#[test]
fn capped_seizure_takes_all_collateral_and_empties_the_slot() {
    let mut collateral_bank = fresh_bank(1);
    let mut debt_bank = fresh_bank(2);
    let mut borrower = init_user(11);
    let mut funder = init_user(12);
    deposit(&mut collateral_bank, &mut borrower, 100, 0).unwrap();
    deposit(&mut debt_bank, &mut funder, 10_000, 0).unwrap();
    borrow(
        &mut debt_bank,
        &mut collateral_bank,
        &mut borrower,
        80,
        &price(1),
        &price(1),
        0,
    )
    .unwrap();
    // at t=1150 the debt has grown to 1000 against 100 of collateral;
    // repaying 500 entitles the liquidator to 550, far over the holding:
    // the seizure is capped at the whole collateral, the position's
    // deposit slot ends at zero, and the shortfall is bad debt, no error
    let out = liquidate(
        &mut debt_bank,
        &mut collateral_bank,
        &mut borrower,
        500,
        &price(1),
        &price(1),
        1150,
    )
    .unwrap();
    assert_eq!(out.repaid, 500);
    assert_eq!(out.seized, 100);
    assert_eq!(borrower.deposited_shares, 0);
    assert_eq!(borrower.deposited_amount, 0);
    assert_eq!(collateral_bank.total_deposited, 0);
    assert_eq!(collateral_bank.total_deposited_shares, 0);
    assert_eq!(debt_bank.total_borrowed, 500);
    assert_eq!(borrower.borrowed_shares, 40);
}

#[test]
fn stale_or_zero_price_is_invalid_price_feed() {
    let (mut collateral_bank, mut debt_bank, mut borrower, _) = funded_pair();
    assert_eq!(
        borrow(
            &mut debt_bank,
            &mut collateral_bank,
            &mut borrower,
            100,
            &stale_price(1),
            &price(1),
            0,
        ),
        Err(ErrorCode::InvalidPriceFeed)
    );
    assert_eq!(
        borrow(
            &mut debt_bank,
            &mut collateral_bank,
            &mut borrower,
            100,
            &price(0),
            &price(1),
            0,
        ),
        Err(ErrorCode::InvalidPriceFeed)
    );
    assert_eq!(read_price(&price(3)), Ok(3));
    assert_eq!(read_price(&stale_price(3)), Err(ErrorCode::InvalidPriceFeed));
}

#[test]
fn accrual_applies_the_linear_interest_formula() {
    let mut bank = Bank {
        authority: 7,
        mint_address: 1,
        total_deposited: 2000,
        total_borrowed: 1000,
        total_deposited_shares: 2000,
        total_borrowed_shares: 1000,
        liquidation_threshold: 8500,
        liquidation_bonus: 1000,
        liquidation_close_factor: 5000,
        max_ltv: 8000,
        last_updated: 0,
        interest_rate: 100,
    };
    accrue(&mut bank, 50).unwrap();
    // 1000 * 100 * 50 / 10_000 = 500 to both sides
    assert_eq!(bank.total_borrowed, 1500);
    assert_eq!(bank.total_deposited, 2500);
    assert_eq!(bank.last_updated, 50);
    assert_eq!(bank.total_deposited_shares, 2000);
    assert_eq!(bank.total_borrowed_shares, 1000);
}

#[test]
fn accrual_is_idempotent_at_one_timestamp() {
    let (mut collateral_bank, mut debt_bank, mut borrower, _) = funded_pair();
    borrow(
        &mut debt_bank,
        &mut collateral_bank,
        &mut borrower,
        800,
        &price(1),
        &price(1),
        0,
    )
    .unwrap();
    accrue(&mut debt_bank, 40).unwrap();
    let first = debt_bank;
    accrue(&mut debt_bank, 40).unwrap();
    assert_eq!(debt_bank, first);
    // and time never runs backwards
    accrue(&mut debt_bank, 10).unwrap();
    assert_eq!(debt_bank, first);
}

#[test]
fn round_trip_after_interest_never_returns_more_than_deposited() {
    let (mut collateral_bank, mut debt_bank, mut borrower, _) = funded_pair();
    borrow(
        &mut debt_bank,
        &mut collateral_bank,
        &mut borrower,
        800,
        &price(1),
        &price(1),
        0,
    )
    .unwrap();
    accrue(&mut debt_bank, 70).unwrap();
    // a latecomer deposits 100 and immediately withdraws everything
    let mut late = init_user(33);
    deposit(&mut debt_bank, &mut late, 100, 70).unwrap();
    let max_back = lending::shares::shares_to_amount(
        late.deposited_shares,
        debt_bank.total_deposited,
        debt_bank.total_deposited_shares,
    )
    .unwrap();
    assert!(max_back <= 100);
    let got = withdraw(
        &mut debt_bank,
        &mut collateral_bank,
        &mut late,
        max_back,
        &price(1),
        &price(1),
        70,
    )
    .unwrap();
    assert!(got <= 100);
    // what little remains cannot be withdrawn at a gain either
    let rest = lending::shares::shares_to_amount(
        late.deposited_shares,
        debt_bank.total_deposited,
        debt_bank.total_deposited_shares,
    )
    .unwrap();
    assert_eq!(rest, 0);
}

#[test]
fn over_withdraw_is_rejected() {
    let mut bank = fresh_bank(1);
    let mut debt_bank = fresh_bank(2);
    let mut user = init_user(9);
    deposit(&mut bank, &mut user, 500, 0).unwrap();
    assert_eq!(
        withdraw(
            &mut bank,
            &mut debt_bank,
            &mut user,
            501,
            &price(1),
            &price(1),
            0,
        ),
        Err(ErrorCode::OverWithdrawRequest)
    );
    assert_eq!(user.deposited_shares, 500);
}

#[test]
fn withdrawing_needed_collateral_is_rejected() {
    let (mut collateral_bank, mut debt_bank, mut borrower, _) = funded_pair();
    borrow(
        &mut debt_bank,
        &mut collateral_bank,
        &mut borrower,
        800,
        &price(1),
        &price(1),
        0,
    )
    .unwrap();
    // 900 of collateral value cannot cover 800 of debt under max LTV 0.8
    assert_eq!(
        withdraw(
            &mut collateral_bank,
            &mut debt_bank,
            &mut borrower,
            100,
            &price(1),
            &price(1),
            0,
        ),
        Err(ErrorCode::WithdrawAmountExceedsCollateralValue)
    );
    assert_eq!(borrower.deposited_shares, 1000);
}

#[test]
fn repay_full_debt_clears_the_position() {
    let (mut collateral_bank, mut debt_bank, mut borrower, _) = funded_pair();
    borrow(
        &mut debt_bank,
        &mut collateral_bank,
        &mut borrower,
        800,
        &price(1),
        &price(1),
        0,
    )
    .unwrap();
    accrue(&mut debt_bank, 25).unwrap();
    // 800 * 100 * 25 / 10_000 = 200 of interest
    assert_eq!(debt_bank.total_borrowed, 1000);
    let owed = borrower.borrowed_amount;
    let paid = repay(&mut debt_bank, &mut borrower, 1000, 25).unwrap();
    assert_eq!(owed, 800); // as of the last touch, before accrual
    assert_eq!(paid, 1000);
    assert_eq!(borrower.borrowed_shares, 0);
    assert_eq!(borrower.borrowed_amount, 0);
    assert_eq!(debt_bank.total_borrowed, 0);
    assert_eq!(debt_bank.total_borrowed_shares, 0);
}

#[test]
fn over_repay_is_rejected() {
    let (mut collateral_bank, mut debt_bank, mut borrower, _) = funded_pair();
    borrow(
        &mut debt_bank,
        &mut collateral_bank,
        &mut borrower,
        800,
        &price(1),
        &price(1),
        0,
    )
    .unwrap();
    assert_eq!(
        repay(&mut debt_bank, &mut borrower, 801, 0),
        Err(ErrorCode::OverRepayRequest)
    );
    assert_eq!(borrower.borrowed_shares, 800);
}

#[test]
fn healthy_position_cannot_be_liquidated() {
    let (mut collateral_bank, mut debt_bank, mut borrower, _) = funded_pair();
    borrow(
        &mut debt_bank,
        &mut collateral_bank,
        &mut borrower,
        500,
        &price(1),
        &price(1),
        0,
    )
    .unwrap();
    // health factor 1000 * 0.85 / 500 = 1.7
    assert_eq!(
        liquidate(
            &mut debt_bank,
            &mut collateral_bank,
            &mut borrower,
            100,
            &price(1),
            &price(1),
            0,
        ),
        Err(ErrorCode::HealthyAccount)
    );
    // a position with no debt at all is healthy too
    let mut idle = init_user(44);
    deposit(&mut collateral_bank, &mut idle, 10, 0).unwrap();
    assert_eq!(
        liquidate(
            &mut debt_bank,
            &mut collateral_bank,
            &mut idle,
            1,
            &price(1),
            &price(1),
            0,
        ),
        Err(ErrorCode::HealthyAccount)
    );
}

#[test]
fn liquidation_repays_and_seizes_with_bonus() {
    let (mut collateral_bank, mut debt_bank, mut borrower, _) = funded_pair();
    borrow(
        &mut debt_bank,
        &mut collateral_bank,
        &mut borrower,
        800,
        &price(1),
        &price(1),
        0,
    )
    .unwrap();
    // at t=25 the debt has grown to 1000: health 1000 * 0.85 / 1000 < 1
    // close factor 0.5 caps the repayment value at 500
    assert_eq!(
        liquidate(
            &mut debt_bank,
            &mut collateral_bank,
            &mut borrower,
            600,
            &price(1),
            &price(1),
            25,
        ),
        Err(ErrorCode::OverRepayRequest)
    );
    let out = liquidate(
        &mut debt_bank,
        &mut collateral_bank,
        &mut borrower,
        500,
        &price(1),
        &price(1),
        25,
    )
    .unwrap();
    assert_eq!(out.repaid, 500);
    // 500 * 1.10 = 550 of collateral at price 1
    assert_eq!(out.seized, 550);
    assert_eq!(debt_bank.total_borrowed, 500);
    assert_eq!(borrower.borrowed_shares, 400);
    assert_eq!(borrower.borrowed_amount, 500);
    assert_eq!(collateral_bank.total_deposited, 450);
    assert_eq!(borrower.deposited_shares, 450);
}

#[test]
fn sole_depositor_withdrawing_almost_everything_keeps_the_residue() {
    // ten units over three shares: withdrawing nine would round the burn
    // up to all three shares, so one share is left carrying the residue
    let mut bank = Bank {
        authority: 7,
        mint_address: 1,
        total_deposited: 10,
        total_borrowed: 0,
        total_deposited_shares: 3,
        total_borrowed_shares: 0,
        liquidation_threshold: 8500,
        liquidation_bonus: 1000,
        liquidation_close_factor: 5000,
        max_ltv: 8000,
        last_updated: 0,
        interest_rate: 100,
    };
    let mut debt_bank = fresh_bank(2);
    let mut user = init_user(9);
    user.deposited_shares = 3;
    user.deposited_amount = 10;
    let got = withdraw(
        &mut bank,
        &mut debt_bank,
        &mut user,
        9,
        &price(1),
        &price(1),
        0,
    )
    .unwrap();
    assert_eq!(got, 9);
    assert_eq!(bank.total_deposited, 1);
    assert_eq!(bank.total_deposited_shares, 1);
    assert_eq!(user.deposited_shares, 1);
    assert_eq!(user.deposited_amount, 1);
}

#[test]
fn repaying_the_whole_pool_debt_past_other_holders_is_rejected() {
    // two units of debt over three shares: a holder of two shares owes
    // two (rounded up), but paying the pool's whole debt would leave the
    // third share dangling, so the request is refused
    let mut bank = Bank {
        authority: 7,
        mint_address: 1,
        total_deposited: 100,
        total_borrowed: 2,
        total_deposited_shares: 100,
        total_borrowed_shares: 3,
        liquidation_threshold: 8500,
        liquidation_bonus: 1000,
        liquidation_close_factor: 5000,
        max_ltv: 8000,
        last_updated: 0,
        interest_rate: 100,
    };
    let mut user = init_user(9);
    user.borrowed_shares = 2;
    user.borrowed_amount = 2;
    assert_eq!(
        repay(&mut bank, &mut user, 2, 0),
        Err(ErrorCode::OverRepayRequest)
    );
    // a partial repayment still goes through
    assert_eq!(repay(&mut bank, &mut user, 1, 0), Ok(1));
    assert_eq!(bank.total_borrowed, 1);
}

#[test]
fn health_factor_reports_no_debt_as_maximal() {
    let (collateral_bank, debt_bank, borrower, _) = funded_pair();
    let h = health_factor(
        &borrower,
        &collateral_bank,
        &debt_bank,
        &price(1),
        &price(1),
    )
    .unwrap();
    assert_eq!(h, None);
}

#[test]
fn health_factor_reports_the_scaled_ratio() {
    let (mut collateral_bank, mut debt_bank, mut borrower, _) = funded_pair();
    borrow(
        &mut debt_bank,
        &mut collateral_bank,
        &mut borrower,
        500,
        &price(1),
        &price(1),
        0,
    )
    .unwrap();
    let h = health_factor(
        &borrower,
        &collateral_bank,
        &debt_bank,
        &price(1),
        &price(1),
    )
    .unwrap();
    // 1000 * 8500 / 500 = 17_000
    assert_eq!(h, Some(17_000));
    assert_eq!(
        health_factor(
            &borrower,
            &collateral_bank,
            &debt_bank,
            &stale_price(1),
            &price(1),
        ),
        Err(ErrorCode::InvalidPriceFeed)
    );
}
