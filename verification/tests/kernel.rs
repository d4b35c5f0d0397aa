use anchor_amm::amm_error::AmmError;
use anchor_amm::arith::{mul_div_ceil, mul_div_floor};
use anchor_amm::curve::{
    deposit_amounts, initial_shares, swap_amount, withdraw_amounts, XYAmounts, BPS,
};
use anchor_amm::ledger::{transfer, LedgerError, Mint, TokenAccount};

#[test]
fn basis_points_make_a_whole_at_ten_thousand() {
    assert_eq!(BPS, 10_000);
}

#[test]
fn mul_div_rounds_as_named() {
    assert_eq!(mul_div_floor(7, 3, 2), 10);
    assert_eq!(mul_div_ceil(7, 3, 2), 11);
    assert_eq!(mul_div_floor(8, 3, 2), 12);
    assert_eq!(mul_div_ceil(8, 3, 2), 12);
    assert_eq!(mul_div_floor(0, 3, 2), 0);
    assert_eq!(mul_div_ceil(0, 3, 2), 0);
    assert_eq!(mul_div_ceil(1, 1, 1_000), 1);
}

#[test]
fn mul_div_keeps_all_128_bits() {
    let max = u64::MAX as u128;
    assert_eq!(mul_div_floor(u64::MAX, u64::MAX, 1), max * max);
    assert_eq!(mul_div_ceil(u64::MAX, u64::MAX, 1), max * max);
    assert_eq!(mul_div_floor(u64::MAX, u64::MAX, max), max);
    assert_eq!(mul_div_ceil(u64::MAX, u64::MAX, max + 1), max);
    assert_eq!(mul_div_floor(u64::MAX, u64::MAX, max + 1), max - 1);
}

#[test]
fn first_deposit_mints_the_larger_amount() {
    assert_eq!(initial_shares(1_000_000, 4_000_000), 4_000_000);
    assert_eq!(initial_shares(4_000_000, 1_000_000), 4_000_000);
    assert_eq!(initial_shares(3, 3), 3);
}

#[test]
fn deposit_amounts_are_ceilings() {
    assert_eq!(
        deposit_amounts(1_000_000, 4_000_000, 4_000_000, 1_000_000),
        Ok(XYAmounts { x: 250_000, y: 1_000_000 })
    );
    assert_eq!(deposit_amounts(10, 7, 3, 1), Ok(XYAmounts { x: 4, y: 3 }));
    assert_eq!(deposit_amounts(0, 7, 3, 1), Ok(XYAmounts { x: 0, y: 3 }));
    assert_eq!(deposit_amounts(10, 7, 3, 0), Ok(XYAmounts { x: 0, y: 0 }));
}

#[test]
fn deposit_amounts_need_shares_to_divide_by() {
    assert_eq!(deposit_amounts(10, 7, 0, 1), Err(AmmError::InvariantViolated));
}

#[test]
fn deposit_amounts_must_fit() {
    assert_eq!(deposit_amounts(u64::MAX, 1, 1, 2), Err(AmmError::Overflow));
    assert_eq!(deposit_amounts(1, u64::MAX, 1, 2), Err(AmmError::Overflow));
    assert_eq!(deposit_amounts(u64::MAX, 1, 1, 1), Ok(XYAmounts { x: u64::MAX, y: 1 }));
}

#[test]
fn withdraw_amounts_are_floors() {
    assert_eq!(
        withdraw_amounts(1_250_000, 5_000_000, 5_000_000, 500_000),
        Ok(XYAmounts { x: 125_000, y: 500_000 })
    );
    assert_eq!(withdraw_amounts(10, 8, 3, 1), Ok(XYAmounts { x: 3, y: 2 }));
    assert_eq!(withdraw_amounts(10, 8, 3, 3), Ok(XYAmounts { x: 10, y: 8 }));
}

#[test]
fn withdraw_amounts_need_shares_to_divide_by() {
    assert_eq!(withdraw_amounts(10, 8, 0, 1), Err(AmmError::InvariantViolated));
}

#[test]
fn withdraw_amounts_must_fit() {
    assert_eq!(withdraw_amounts(u64::MAX, 1, 1, 2), Err(AmmError::Overflow));
}

#[test]
fn swap_amount_takes_the_fee_off_the_input() {
    // e = 99_700, out = floor(5_000_000 * 99_700 / 1_349_700) = 369_341
    assert_eq!(swap_amount(1_250_000, 5_000_000, 100_000, 30), Ok(369_341));
    // without fee: floor(5_000_000 * 100_000 / 1_350_000) = 370_370
    assert_eq!(swap_amount(1_250_000, 5_000_000, 100_000, 0), Ok(370_370));
    // with nearly all of it kept: e = 10, out = floor(5_000_000 * 10 / 1_250_010) = 39
    assert_eq!(swap_amount(1_250_000, 5_000_000, 100_000, 9_999), Ok(39));
}

#[test]
fn swap_amount_refuses_to_pay_nothing_or_everything() {
    assert_eq!(swap_amount(1_000_000, 1_000, 1, 30), Err(AmmError::InsufficientLiquidity));
    assert_eq!(swap_amount(1_000, 0, 10, 30), Err(AmmError::InsufficientLiquidity));
    // nothing in the input reserve: the whole output reserve would leave
    assert_eq!(swap_amount(0, 1_000, 10, 0), Err(AmmError::InsufficientLiquidity));
}

#[test]
fn swap_amount_needs_something_to_divide_by() {
    assert_eq!(swap_amount(0, 1_000, 0, 30), Err(AmmError::InvariantViolated));
    assert_eq!(swap_amount(0, 1_000, 1, 30), Err(AmmError::InvariantViolated));
}

#[test]
fn swap_amount_refuses_a_fee_of_the_whole() {
    assert_eq!(swap_amount(1_000, 1_000, 10, 10_000), Err(AmmError::InvalidFee));
    assert_eq!(swap_amount(1_000, 1_000, 10, u16::MAX), Err(AmmError::InvalidFee));
    assert_eq!(swap_amount(0, 0, 0, 10_000), Err(AmmError::InvalidFee));
}

#[test]
fn swap_amount_works_at_the_largest_amounts() {
    // e = MAX, out = floor(MAX * MAX / (2 * MAX)) = floor(MAX / 2)
    assert_eq!(swap_amount(u64::MAX, u64::MAX, u64::MAX, 0), Ok(u64::MAX / 2));
}

#[test]
fn credit_and_debit_move_exactly_the_amount() {
    let mut account = TokenAccount { amount: 10 };
    assert_eq!(account.credit(5), Ok(()));
    assert_eq!(account.amount, 15);
    assert_eq!(account.debit(15), Ok(()));
    assert_eq!(account.amount, 0);
}

#[test]
fn credit_past_the_top_is_refused() {
    let mut account = TokenAccount { amount: u64::MAX - 1 };
    assert_eq!(account.credit(2), Err(LedgerError::Overflow));
    assert_eq!(account.amount, u64::MAX - 1);
    assert_eq!(account.credit(1), Ok(()));
    assert_eq!(account.amount, u64::MAX);
}

#[test]
fn debit_past_the_bottom_is_refused() {
    let mut account = TokenAccount { amount: 3 };
    assert_eq!(account.debit(4), Err(LedgerError::InsufficientBalance));
    assert_eq!(account.amount, 3);
}

#[test]
fn mint_grows_supply_and_balance_together() {
    let mut mint = Mint { supply: 100, decimals: 6 };
    let mut holder = TokenAccount { amount: 40 };
    assert_eq!(mint.mint_to(&mut holder, 2), Ok(()));
    assert_eq!(mint, Mint { supply: 102, decimals: 6 });
    assert_eq!(holder.amount, 42);
}

#[test]
fn mint_past_the_top_changes_nothing() {
    let mut mint = Mint { supply: u64::MAX, decimals: 6 };
    let mut holder = TokenAccount { amount: 40 };
    assert_eq!(mint.mint_to(&mut holder, 1), Err(LedgerError::Overflow));
    assert_eq!(mint.supply, u64::MAX);
    assert_eq!(holder.amount, 40);

    let mut mint = Mint { supply: 1, decimals: 6 };
    let mut holder = TokenAccount { amount: u64::MAX };
    assert_eq!(mint.mint_to(&mut holder, 1), Err(LedgerError::Overflow));
    assert_eq!(mint.supply, 1);
    assert_eq!(holder.amount, u64::MAX);
}

#[test]
fn burn_shrinks_supply_and_balance_together() {
    let mut mint = Mint { supply: 100, decimals: 6 };
    let mut holder = TokenAccount { amount: 40 };
    assert_eq!(mint.burn(&mut holder, 40), Ok(()));
    assert_eq!(mint, Mint { supply: 60, decimals: 6 });
    assert_eq!(holder.amount, 0);
}

#[test]
fn burn_of_more_than_held_changes_nothing() {
    let mut mint = Mint { supply: 100, decimals: 6 };
    let mut holder = TokenAccount { amount: 40 };
    assert_eq!(mint.burn(&mut holder, 41), Err(LedgerError::InsufficientBalance));
    assert_eq!(mint.supply, 100);
    assert_eq!(holder.amount, 40);

    let mut mint = Mint { supply: 10, decimals: 6 };
    assert_eq!(mint.burn(&mut holder, 11), Err(LedgerError::InsufficientBalance));
    assert_eq!(mint.supply, 10);
    assert_eq!(holder.amount, 40);
}

#[test]
fn transfer_moves_between_two_accounts() {
    let mut from = TokenAccount { amount: 10 };
    let mut to = TokenAccount { amount: 1 };
    assert_eq!(transfer(&mut from, &mut to, 4), Ok(()));
    assert_eq!(from.amount, 6);
    assert_eq!(to.amount, 5);
    assert_eq!(transfer(&mut from, &mut to, 0), Ok(()));
    assert_eq!((from.amount, to.amount), (6, 5));
}

#[test]
fn transfer_that_fails_changes_neither_account() {
    let mut from = TokenAccount { amount: 10 };
    let mut to = TokenAccount { amount: u64::MAX - 3 };
    assert_eq!(transfer(&mut from, &mut to, 11), Err(LedgerError::InsufficientBalance));
    assert_eq!(transfer(&mut from, &mut to, 4), Err(LedgerError::Overflow));
    assert_eq!((from.amount, to.amount), (10, u64::MAX - 3));
    assert_eq!(transfer(&mut from, &mut to, 3), Ok(()));
    assert_eq!((from.amount, to.amount), (7, u64::MAX));
}
