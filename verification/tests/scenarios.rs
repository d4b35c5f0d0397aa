use anchor_amm::address::Address;
use anchor_amm::amm_error::AmmError;
use anchor_amm::context::deposit::Deposit;
use anchor_amm::context::init::{Initialize, InitializeBumps, PoolId, SHARE_DECIMALS};
use anchor_amm::context::swap::{Direction, Swap};
use anchor_amm::context::withdraw::Withdraw;
use anchor_amm::curve::XYAmounts;
use anchor_amm::ledger::{Mint, TokenAccount};
use anchor_amm::state::config::Config;

fn key(byte: u8) -> Address {
    Address { bytes: [byte; 32] }
}

fn admin() -> Address {
    key(9)
}

/// A pool that was just created, with a fee of 30 basis points.
fn fresh() -> Initialize {
    let mut ctx = Initialize {
        mint_x: key(1),
        mint_y: key(2),
        config: None,
        lp_mint: Mint { supply: 77, decimals: 0 },
        vault_x: TokenAccount { amount: 5 },
        vault_y: TokenAccount { amount: 6 },
    };
    let id = ctx.init(7, 30, Some(admin()), &InitializeBumps { config: 254, lp_mint: 253 });
    assert_eq!(id, Ok(PoolId { mint_x: key(1), mint_y: key(2), seed: 7 }));
    ctx
}

fn deposit_at(ctx: &Initialize) -> Deposit {
    Deposit {
        vault_x: ctx.vault_x,
        vault_y: ctx.vault_y,
        config: ctx.config.unwrap(),
        lp_mint: ctx.lp_mint,
        user_lp: TokenAccount { amount: 0 },
    }
}

/// The pool after the bootstrap deposit of (1_000_000, 4_000_000).
fn bootstrapped() -> Deposit {
    let mut ctx = deposit_at(&fresh());
    assert_eq!(
        ctx.deposit(1_000_000, 1_000_000, 4_000_000),
        Ok(XYAmounts { x: 1_000_000, y: 4_000_000 })
    );
    ctx
}

/// The pool after a second, proportional deposit of 1_000_000 shares.
fn funded() -> Deposit {
    let mut ctx = bootstrapped();
    assert_eq!(
        ctx.deposit(1_000_000, 300_000, 1_100_000),
        Ok(XYAmounts { x: 250_000, y: 1_000_000 })
    );
    ctx
}

fn swap_at(ctx: &Deposit) -> Swap {
    Swap { vault_x: ctx.vault_x, vault_y: ctx.vault_y, config: ctx.config, lp_mint: ctx.lp_mint }
}

fn withdraw_at(ctx: &Deposit) -> Withdraw {
    Withdraw {
        vault_x: ctx.vault_x,
        vault_y: ctx.vault_y,
        config: ctx.config,
        lp_mint: ctx.lp_mint,
        user_lp: ctx.user_lp,
    }
}

#[test]
fn init_creates_an_unlocked_empty_pool() {
    let ctx = fresh();
    let config = ctx.config.unwrap();
    assert_eq!(config.seed(), 7);
    assert_eq!(config.authority(), Some(admin()));
    assert_eq!(config.mint_x(), key(1));
    assert_eq!(config.mint_y(), key(2));
    assert_eq!(config.lp_bump(), 253);
    assert_eq!(config.config_bump(), 254);
    assert_eq!(config.fee(), 30);
    assert!(!config.locked());
    assert_eq!(ctx.lp_mint, Mint { supply: 0, decimals: SHARE_DECIMALS });
    assert_eq!(SHARE_DECIMALS, 6);
    assert_eq!(ctx.vault_x.amount, 0);
    assert_eq!(ctx.vault_y.amount, 0);
}

#[test]
fn bootstrap_deposit_takes_the_limits_and_mints_the_larger() {
    let ctx = bootstrapped();
    assert_eq!(ctx.vault_x.amount, 1_000_000);
    assert_eq!(ctx.vault_y.amount, 4_000_000);
    assert_eq!(ctx.lp_mint.supply, 4_000_000);
    assert_eq!(ctx.user_lp.amount, 4_000_000);
}

#[test]
fn proportional_deposit_rounds_up_and_mints_what_was_asked() {
    let ctx = funded();
    assert_eq!(ctx.vault_x.amount, 1_250_000);
    assert_eq!(ctx.vault_y.amount, 5_000_000);
    assert_eq!(ctx.lp_mint.supply, 5_000_000);
    assert_eq!(ctx.user_lp.amount, 5_000_000);
}

#[test]
fn swap_x_to_y_pays_along_the_curve() {
    let mut ctx = swap_at(&funded());
    assert_eq!(ctx.swap(Direction::XToY, 100_000, 300_000), Ok(369_341));
    assert_eq!(ctx.vault_x.amount, 1_350_000);
    assert_eq!(ctx.vault_y.amount, 4_630_659);
    assert_eq!(ctx.lp_mint.supply, 5_000_000);
}

#[test]
fn swap_below_the_minimum_is_rejected_and_changes_nothing() {
    let before = swap_at(&funded());
    let mut ctx = before;
    assert_eq!(ctx.swap(Direction::XToY, 100_000, 400_000), Err(AmmError::SlippageExceeded));
    assert_eq!(ctx, before);
}

#[test]
fn withdraw_releases_the_proportional_part() {
    let mut ctx = withdraw_at(&funded());
    assert_eq!(ctx.withdraw(500_000, 120_000, 490_000), Ok(XYAmounts { x: 125_000, y: 500_000 }));
    assert_eq!(ctx.vault_x.amount, 1_125_000);
    assert_eq!(ctx.vault_y.amount, 4_500_000);
    assert_eq!(ctx.lp_mint.supply, 4_500_000);
    assert_eq!(ctx.user_lp.amount, 4_500_000);
}

#[test]
fn locked_pool_refuses_every_user_operation() {
    let funded = funded();
    let mut config: Config = funded.config;
    assert_eq!(config.set_lock(&admin(), true), Ok(()));
    assert!(config.locked());

    let locked = Deposit { config, ..funded };
    let mut deposit = locked;
    assert_eq!(deposit.deposit(1_000, 1_000_000, 1_000_000), Err(AmmError::PoolLocked));
    assert_eq!(deposit, locked);

    let mut withdraw = withdraw_at(&locked);
    assert_eq!(withdraw.withdraw(1_000, 1, 1), Err(AmmError::PoolLocked));
    assert_eq!(withdraw, withdraw_at(&locked));

    let mut swap = swap_at(&locked);
    assert_eq!(swap.swap(Direction::XToY, 1_000, 1), Err(AmmError::PoolLocked));
    assert_eq!(swap.swap(Direction::YToX, 1_000, 1), Err(AmmError::PoolLocked));
    assert_eq!(swap, swap_at(&locked));
}

#[test]
fn unlocking_lets_operations_through_again() {
    let funded = funded();
    let mut config: Config = funded.config;
    assert_eq!(config.set_lock(&admin(), true), Ok(()));
    assert_eq!(config.set_lock(&admin(), false), Ok(()));
    assert!(!config.locked());
    let mut swap = swap_at(&Deposit { config, ..funded });
    assert_eq!(swap.swap(Direction::XToY, 100_000, 300_000), Ok(369_341));
}

#[test]
fn swap_y_to_x_pays_along_the_curve() {
    // e = floor(400_000 * 9970 / 10_000) = 398_800
    // out = floor(1_250_000 * 398_800 / (5_000_000 + 398_800)) = 92_335
    let mut ctx = swap_at(&funded());
    assert_eq!(ctx.swap(Direction::YToX, 400_000, 1), Ok(92_335));
    assert_eq!(ctx.vault_x.amount, 1_250_000 - 92_335);
    assert_eq!(ctx.vault_y.amount, 5_400_000);
}
