use anchor_amm::address::Address;
use anchor_amm::context::deposit::Deposit;
use anchor_amm::context::swap::{Direction, Swap};
use anchor_amm::context::withdraw::Withdraw;
use anchor_amm::ledger::{Mint, TokenAccount};
use anchor_amm::state::config::Config;

fn key(byte: u8) -> Address {
    Address { bytes: [byte; 32] }
}

fn config(fee: u16) -> Config {
    Config::new(7, Some(key(9)), key(1), key(2), 253, 254, fee, false).unwrap()
}

fn deposit(x: u64, y: u64, supply: u64) -> Deposit {
    Deposit {
        vault_x: TokenAccount { amount: x },
        vault_y: TokenAccount { amount: y },
        config: config(30),
        lp_mint: Mint { supply, decimals: 6 },
        user_lp: TokenAccount { amount: 0 },
    }
}

fn swap(x: u64, y: u64, fee: u16) -> Swap {
    Swap {
        vault_x: TokenAccount { amount: x },
        vault_y: TokenAccount { amount: y },
        config: config(fee),
        lp_mint: Mint { supply: 1_000, decimals: 6 },
    }
}

fn withdrawal_after(ctx: &Deposit) -> Withdraw {
    Withdraw {
        vault_x: ctx.vault_x,
        vault_y: ctx.vault_y,
        config: ctx.config,
        lp_mint: ctx.lp_mint,
        user_lp: ctx.user_lp,
    }
}

fn product(ctx: &Swap) -> u128 {
    ctx.vault_x.amount as u128 * ctx.vault_y.amount as u128
}

/// `after / supply_after >= before / supply_before`, without division.
fn backed(before: u64, supply_before: u64, after: u64, supply_after: u64) -> bool {
    after as u128 * supply_before as u128 >= before as u128 * supply_after as u128
}

#[test]
fn deposit_never_dilutes_a_share() {
    for (x, y, supply, shares) in
        [(10u64, 7u64, 3u64, 1u64), (1_250_000, 5_000_000, 5_000_000, 77), (1, 1, 1_000, 999), (999, 1, 10, 3)]
    {
        let before = deposit(x, y, supply);
        let mut after = before;
        assert!(after.deposit(shares, u64::MAX, u64::MAX).is_ok());
        assert!(backed(x, supply, after.vault_x.amount, after.lp_mint.supply));
        assert!(backed(y, supply, after.vault_y.amount, after.lp_mint.supply));
    }
}

#[test]
fn withdraw_never_dilutes_a_share() {
    for (x, y, supply, shares) in
        [(10u64, 8u64, 3u64, 1u64), (1_250_000, 5_000_000, 5_000_000, 77), (3, 5, 1_000, 999), (999, 5, 10, 10)]
    {
        let mut after = withdrawal_after(&Deposit {
            user_lp: TokenAccount { amount: supply },
            ..deposit(x, y, supply)
        });
        assert!(after.withdraw(shares, 0, 1).is_ok());
        assert!(backed(x, supply, after.vault_x.amount, after.lp_mint.supply));
        assert!(backed(y, supply, after.vault_y.amount, after.lp_mint.supply));
    }
}

#[test]
fn swap_never_lowers_the_product() {
    for (x, y, a_in, fee) in
        [(1_250_000u64, 5_000_000u64, 100_000u64, 30u16), (1_000, 1_000, 37, 0), (5_000, 1_000_000, 3_000, 9_000)]
    {
        for direction in [Direction::XToY, Direction::YToX] {
            let before = swap(x, y, fee);
            let mut after = before;
            assert!(after.swap(direction, a_in, 1).is_ok());
            assert!(product(&after) >= product(&before));
        }
    }
}

#[test]
fn swap_keeps_the_product_only_without_fee_and_residue() {
    // 1_000 * 1_000 / (1_000 + 1_000) = 500 exactly
    let before = swap(1_000, 1_000, 0);
    let mut after = before;
    assert_eq!(after.swap(Direction::XToY, 1_000, 1), Ok(500));
    assert_eq!(product(&after), product(&before));

    // the same swap with a fee: e = 999, out = floor(999_000 / 1_999) = 499
    let before = swap(1_000, 1_000, 1);
    let mut after = before;
    assert_eq!(after.swap(Direction::XToY, 1_000, 1), Ok(499));
    assert!(product(&after) > product(&before));

    // without fee but with a residue: floor(1_000 * 3 / 1_003) = 2
    let before = swap(1_000, 1_000, 0);
    let mut after = before;
    assert_eq!(after.swap(Direction::XToY, 3, 1), Ok(2));
    assert!(product(&after) > product(&before));
}

#[test]
fn deposit_then_withdraw_loses_at_most_one_unit() {
    for (x, y, supply, shares) in
        [(10u64, 7u64, 3u64, 1u64), (1_250_000, 5_000_000, 5_000_000, 77), (3, 5, 1_000, 999), (999, 1, 10, 3)]
    {
        let mut ctx = deposit(x, y, supply);
        let paid = ctx.deposit(shares, u64::MAX, u64::MAX).unwrap();
        let mut ctx = withdrawal_after(&ctx);
        let back = ctx.withdraw(shares, 1, 0).unwrap();
        assert!(back.x <= paid.x && paid.x <= back.x + 1);
        assert!(back.y <= paid.y && paid.y <= back.y + 1);
    }
}

#[test]
fn first_deposit_comes_back_whole() {
    let mut ctx = deposit(0, 0, 0);
    let paid = ctx.deposit(1_000_000, 1_000_000, 4_000_000).unwrap();
    let minted = ctx.lp_mint.supply;
    assert_eq!(minted, 4_000_000);
    let mut ctx = withdrawal_after(&ctx);
    assert_eq!(ctx.withdraw(minted, 1, 1), Ok(paid));
    assert_eq!(ctx.vault_x.amount, 0);
    assert_eq!(ctx.vault_y.amount, 0);
    assert_eq!(ctx.lp_mint.supply, 0);
}

#[test]
fn swapping_back_gains_nothing() {
    for (x, y, a_in, fee) in [
        (1_250_000u64, 5_000_000u64, 100_000u64, 30u16),
        (1, 998_000, 1_000, 30),
        (1_000, 1_000, 37, 0),
        (1_000_000, 1_000_000, 1_000, 9_000),
    ] {
        let mut ctx = swap(x, y, fee);
        let out = ctx.swap(Direction::XToY, a_in, 1).unwrap();
        let back = ctx.swap(Direction::YToX, out, 1).unwrap();
        assert!(back <= a_in);
        let k = (10_000 - fee) as u128;
        let m = 10_000u128;
        assert!(
            back as u128 * (x as u128 * m * m + k * k * a_in as u128)
                <= k * k * a_in as u128 * (x as u128 + a_in as u128)
        );
    }
}

#[test]
fn small_swap_comes_back_scaled_twice_by_the_fee() {
    // 100_000 into 1_250_000_000 at 30 basis points: 100_000 * 0.997^2 = 99_400.9
    let mut ctx = swap(1_250_000_000, 5_000_000_000, 30);
    let out = ctx.swap(Direction::XToY, 100_000, 1).unwrap();
    let back = ctx.swap(Direction::YToX, out, 1).unwrap();
    assert!(back as u128 * 100_000_000 <= 9_970 * 9_970 * 100_000 + 100_000_000);
}

#[test]
fn large_swap_comes_back_with_part_of_its_fee() {
    // the input is a thousand times the reserve it enters
    let mut ctx = swap(1, 998_000, 30);
    assert_eq!(ctx.swap(Direction::XToY, 1_000, 1), Ok(997_000));
    assert_eq!(ctx.swap(Direction::YToX, 997_000, 1), Ok(999));
}
