use crate::amm_error::AmmError;
use crate::arith::lemma_ceil_bounds;
use crate::curve::{
    backing_kept, bootstrap_shares, coherent, deposit_amounts, deposit_quote, initial_shares,
    XYAmounts,
};
use crate::ledger::{Mint, TokenAccount};
use crate::state::config::Config;
use crate::theorems::lemma_deposit_backing;
use vstd::prelude::*;

verus! {

/// What one deposit touches: the pool's record, its two vaults, the share
/// asset and the depositor's share account.
#[derive(Clone, Copy, Debug, PartialEq, Eq)]
pub struct Deposit {
    pub vault_x: TokenAccount,
    pub vault_y: TokenAccount,
    pub config: Config,
    pub lp_mint: Mint,
    pub user_lp: TokenAccount,
}

impl Deposit {
    /// The vaults and the share supply agree, and the depositor holds no
    /// more shares than exist.
    pub open spec fn coherent(self) -> bool {
        &&& coherent(
            self.vault_x.amount as int,
            self.vault_y.amount as int,
            self.lp_mint.supply as int,
        )
        &&& self.user_lp.amount <= self.lp_mint.supply
    }

    /// What a deposit asking for `amount` shares takes and mints, before
    /// anything moves: the amounts owed and the shares to mint.
    ///
    /// An empty pool takes the caller's limits whole and mints the larger of
    /// the two as shares; any other pool takes the proportional amounts,
    /// rounded up, and mints `amount`.
    pub open spec fn quote(self, amount: u64, max_x: u64, max_y: u64) -> Result<
        (XYAmounts, u64),
        AmmError,
    > {
        if self.config@.locked {
            Err(AmmError::PoolLocked)
        } else if amount == 0 || max_x == 0 || max_y == 0 {
            Err(AmmError::InvalidAmount)
        } else if !self.coherent() {
            Err(AmmError::InvariantViolated)
        } else if self.lp_mint.supply == 0 {
            Ok(
                (
                    XYAmounts { x: max_x, y: max_y },
                    bootstrap_shares(max_x as int, max_y as int) as u64,
                ),
            )
        } else {
            match deposit_quote(
                self.vault_x.amount,
                self.vault_y.amount,
                self.lp_mint.supply,
                amount,
            ) {
                Err(e) => Err(e),
                Ok(owed) => if owed.x > max_x || owed.y > max_y {
                    Err(AmmError::SlippageExceeded)
                } else {
                    Ok((owed, amount))
                },
            }
        }
    }

    /// The accounts after `owed` entered the vaults and `minted` shares were
    /// issued to the depositor.
    pub open spec fn settled(self, owed: XYAmounts, minted: u64) -> Deposit {
        Deposit {
            vault_x: TokenAccount { amount: (self.vault_x.amount + owed.x) as u64 },
            vault_y: TokenAccount { amount: (self.vault_y.amount + owed.y) as u64 },
            config: self.config,
            lp_mint: Mint { supply: (self.lp_mint.supply + minted) as u64, ..self.lp_mint },
            user_lp: TokenAccount { amount: (self.user_lp.amount + minted) as u64 },
        }
    }

    /// The whole deposit: the accounts afterwards and the amounts taken, or
    /// the reason for which nothing happened.
    pub open spec fn outcome(self, amount: u64, max_x: u64, max_y: u64) -> Result<
        (Deposit, XYAmounts),
        AmmError,
    > {
        match self.quote(amount, max_x, max_y) {
            Err(e) => Err(e),
            Ok((owed, minted)) => if self.vault_x.amount + owed.x > u64::MAX || self.vault_y.amount
                + owed.y > u64::MAX || self.lp_mint.supply + minted > u64::MAX {
                Err(AmmError::Overflow)
            } else {
                Ok((self.settled(owed, minted), owed))
            },
        }
    }

    fn is_coherent(&self) -> (r: bool)
        ensures
            r == self.coherent(),
    {
        let x: u64 = self.vault_x.amount;
        let y: u64 = self.vault_y.amount;
        let l: u64 = self.lp_mint.supply;
        ((x > 0 && y > 0 && l > 0) || (x == 0 && y == 0 && l == 0)) && self.user_lp.amount <= l
    }

    /// Deposits both assets for newly minted shares.
    ///
    /// Returns the amounts taken and commits them together with the minted
    /// shares, or returns the reason and leaves every account as it was.
    /// The reasons, the first that applies:
    ///
    /// - `PoolLocked`: the pool is locked;
    /// - `InvalidAmount`: `amount`, `max_x` or `max_y` is zero;
    /// - `InvariantViolated`: the accounts are not [coherent](Self::coherent);
    /// - `Overflow`: an amount owed does not fit in sixty-four bits;
    /// - `SlippageExceeded`: an amount owed exceeds the caller's limit;
    /// - `Overflow`: a vault or the share supply would not fit.
    ///
    /// A deposit that succeeds leaves the accounts coherent and backs every
    /// share by at least as much of each reserve as before.
    pub fn deposit(&mut self, amount: u64, max_x: u64, max_y: u64) -> (r: Result<
        XYAmounts,
        AmmError,
    >)
        ensures
            match old(self).outcome(amount, max_x, max_y) {
                Ok((after, owed)) => r == Ok::<XYAmounts, AmmError>(owed) && *final(self) == after,
                Err(e) => r == Err::<XYAmounts, AmmError>(e),
            },
            r is Err ==> *final(self) == *old(self),
            old(self).config@.locked ==> r == Err::<XYAmounts, AmmError>(AmmError::PoolLocked),
            r is Ok ==> final(self).coherent() && final(self).config == old(self).config,
            r is Ok ==> backing_kept(
                old(self).vault_x.amount as int,
                old(self).lp_mint.supply as int,
                final(self).vault_x.amount as int,
                final(self).lp_mint.supply as int,
            ) && backing_kept(
                old(self).vault_y.amount as int,
                old(self).lp_mint.supply as int,
                final(self).vault_y.amount as int,
                final(self).lp_mint.supply as int,
            ),
    {
        if self.config.locked() {
            return Err(AmmError::PoolLocked);
        }
        if amount == 0 || max_x == 0 || max_y == 0 {
            return Err(AmmError::InvalidAmount);
        }
        if !self.is_coherent() {
            return Err(AmmError::InvariantViolated);
        }
        let reserve_x: u64 = self.vault_x.amount;
        let reserve_y: u64 = self.vault_y.amount;
        let supply: u64 = self.lp_mint.supply;
        let owed: XYAmounts;
        let minted: u64;
        if supply == 0 {
            owed = XYAmounts { x: max_x, y: max_y };
            minted = initial_shares(max_x, max_y);
        } else {
            match deposit_amounts(reserve_x, reserve_y, supply, amount) {
                Ok(needed) => {
                    owed = needed;
                },
                Err(e) => {
                    return Err(e);
                },
            }
            if owed.x > max_x || owed.y > max_y {
                return Err(AmmError::SlippageExceeded);
            }
            minted = amount;
        }
        let mut staged: Deposit = *self;
        match staged.deposit_token(true, owed.x) {
            Ok(()) => {},
            Err(e) => {
                return Err(e);
            },
        }
        match staged.deposit_token(false, owed.y) {
            Ok(()) => {},
            Err(e) => {
                return Err(e);
            },
        }
        match staged.mint_lp_tokens(minted) {
            Ok(()) => {},
            Err(e) => {
                return Err(e);
            },
        }
        proof {
            if supply > 0 {
                lemma_deposit_backing(reserve_x as int, amount as int, supply as int);
                lemma_deposit_backing(reserve_y as int, amount as int, supply as int);
                lemma_ceil_bounds(reserve_x * amount, supply as int);
                lemma_ceil_bounds(reserve_y * amount, supply as int);
                assert(reserve_x * amount > 0 && reserve_y * amount > 0) by (nonlinear_arith)
                    requires
                        reserve_x > 0,
                        reserve_y > 0,
                        amount > 0,
                ;
            }
        }
        *self = staged;
        Ok(owed)
    }

    /// Credits `amount` to the vault of asset X, or to that of asset Y.
    fn deposit_token(&mut self, is_x: bool, amount: u64) -> (r: Result<(), AmmError>)
        ensures
            r is Ok <==> (if is_x {
                old(self).vault_x.amount
            } else {
                old(self).vault_y.amount
            }) + amount <= u64::MAX,
            r is Ok && is_x ==> *final(self) == (Deposit {
                vault_x: TokenAccount { amount: (old(self).vault_x.amount + amount) as u64 },
                ..*old(self)
            }),
            r is Ok && !is_x ==> *final(self) == (Deposit {
                vault_y: TokenAccount { amount: (old(self).vault_y.amount + amount) as u64 },
                ..*old(self)
            }),
            r is Err ==> r == Err::<(), AmmError>(AmmError::Overflow) && *final(self) == *old(self),
    {
        let credited = if is_x {
            self.vault_x.credit(amount)
        } else {
            self.vault_y.credit(amount)
        };
        match credited {
            Ok(()) => Ok(()),
            Err(_) => Err(AmmError::Overflow),
        }
    }

    /// Issues `amount` shares to the depositor.
    fn mint_lp_tokens(&mut self, amount: u64) -> (r: Result<(), AmmError>)
        ensures
            r is Ok <==> old(self).lp_mint.supply + amount <= u64::MAX && old(self).user_lp.amount
                + amount <= u64::MAX,
            r is Ok ==> *final(self) == (Deposit {
                lp_mint: Mint {
                    supply: (old(self).lp_mint.supply + amount) as u64,
                    ..old(self).lp_mint
                },
                user_lp: TokenAccount { amount: (old(self).user_lp.amount + amount) as u64 },
                ..*old(self)
            }),
            r is Err ==> r == Err::<(), AmmError>(AmmError::Overflow) && *final(self) == *old(self),
    {
        match self.lp_mint.mint_to(&mut self.user_lp, amount) {
            Ok(()) => Ok(()),
            Err(_) => Err(AmmError::Overflow),
        }
    }
}

} // verus!
