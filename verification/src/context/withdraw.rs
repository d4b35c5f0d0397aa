use crate::amm_error::AmmError;
use crate::context::deposit::Deposit;
use crate::curve::{backing_kept, coherent, withdraw_amounts, withdraw_share, XYAmounts};
use crate::ledger::{Mint, TokenAccount};
use crate::state::config::Config;
use crate::theorems::{
    lemma_round_trip, lemma_round_trip_bootstrap, lemma_withdraw_backing, lemma_withdraw_within,
};
use vstd::prelude::*;

verus! {

/// What one withdrawal touches: the pool's record, its two vaults, the
/// share asset and the withdrawer's share account.
#[derive(Clone, Copy, Debug, PartialEq, Eq)]
pub struct Withdraw {
    pub vault_x: TokenAccount,
    pub vault_y: TokenAccount,
    pub config: Config,
    pub lp_mint: Mint,
    pub user_lp: TokenAccount,
}

impl Withdraw {
    /// The vaults and the share supply agree, and the withdrawer holds no
    /// more shares than exist.
    pub open spec fn coherent(self) -> bool {
        &&& coherent(
            self.vault_x.amount as int,
            self.vault_y.amount as int,
            self.lp_mint.supply as int,
        )
        &&& self.user_lp.amount <= self.lp_mint.supply
    }

    /// What burning `amount` shares releases, before anything moves: the
    /// proportional part of each reserve, rounded down.
    pub open spec fn quote(self, amount: u64, min_x: u64, min_y: u64) -> Result<
        XYAmounts,
        AmmError,
    > {
        let released = XYAmounts {
            x: withdraw_share(
                self.vault_x.amount as int,
                amount as int,
                self.lp_mint.supply as int,
            ) as u64,
            y: withdraw_share(
                self.vault_y.amount as int,
                amount as int,
                self.lp_mint.supply as int,
            ) as u64,
        };
        if self.config@.locked {
            Err(AmmError::PoolLocked)
        } else if amount == 0 || (min_x == 0 && min_y == 0) {
            Err(AmmError::InvalidAmount)
        } else if amount > self.user_lp.amount {
            Err(AmmError::InsufficientShares)
        } else if !self.coherent() {
            Err(AmmError::InvariantViolated)
        } else if released.x < min_x || released.y < min_y {
            Err(AmmError::SlippageExceeded)
        } else {
            Ok(released)
        }
    }

    /// The accounts after `burnt` shares of the withdrawer were destroyed
    /// and `released` left the vaults.
    pub open spec fn settled(self, released: XYAmounts, burnt: u64) -> Withdraw {
        Withdraw {
            vault_x: TokenAccount { amount: (self.vault_x.amount - released.x) as u64 },
            vault_y: TokenAccount { amount: (self.vault_y.amount - released.y) as u64 },
            config: self.config,
            lp_mint: Mint { supply: (self.lp_mint.supply - burnt) as u64, ..self.lp_mint },
            user_lp: TokenAccount { amount: (self.user_lp.amount - burnt) as u64 },
        }
    }

    /// The whole withdrawal: the accounts afterwards and the amounts
    /// released, or the reason for which nothing happened.
    pub open spec fn outcome(self, amount: u64, min_x: u64, min_y: u64) -> Result<
        (Withdraw, XYAmounts),
        AmmError,
    > {
        match self.quote(amount, min_x, min_y) {
            Err(e) => Err(e),
            Ok(released) => Ok((self.settled(released, amount), released)),
        }
    }

    /// The accounts that a deposit left, as the same user's withdrawal
    /// finds them.
    pub open spec fn following(deposit: Deposit) -> Withdraw {
        Withdraw {
            vault_x: deposit.vault_x,
            vault_y: deposit.vault_y,
            config: deposit.config,
            lp_mint: deposit.lp_mint,
            user_lp: deposit.user_lp,
        }
    }

    /// Burning at once the shares that a deposit minted gives back, of each
    /// asset, what the deposit took or one unit less, and never more.
    pub proof fn lemma_deposit_then_withdraw(
        before: Deposit,
        amount: u64,
        max_x: u64,
        max_y: u64,
        min_x: u64,
        min_y: u64,
    )
        requires
            before.outcome(amount, max_x, max_y) is Ok,
            ({
                let (mid, paid) = before.outcome(amount, max_x, max_y)->Ok_0;
                let minted = (mid.lp_mint.supply - before.lp_mint.supply) as u64;
                Withdraw::following(mid).outcome(minted, min_x, min_y) is Ok
            }),
        ensures
            ({
                let (mid, paid) = before.outcome(amount, max_x, max_y)->Ok_0;
                let minted = (mid.lp_mint.supply - before.lp_mint.supply) as u64;
                let back = Withdraw::following(mid).outcome(minted, min_x, min_y)->Ok_0.1;
                &&& before.lp_mint.supply > 0 ==> minted == amount
                &&& back.x <= paid.x <= back.x + 1
                &&& back.y <= paid.y <= back.y + 1
            }),
    {
        let (mid, paid) = before.outcome(amount, max_x, max_y)->Ok_0;
        let minted = (mid.lp_mint.supply - before.lp_mint.supply) as u64;
        let supply = before.lp_mint.supply as int;
        let reserve_x = before.vault_x.amount as int;
        let reserve_y = before.vault_y.amount as int;
        if supply == 0 {
            lemma_round_trip_bootstrap(paid.x as int, minted as int);
            lemma_round_trip_bootstrap(paid.y as int, minted as int);
        } else {
            lemma_round_trip(reserve_x, amount as int, supply);
            lemma_round_trip(reserve_y, amount as int, supply);
        }
    }

    fn is_coherent(&self) -> (r: bool)
        ensures
            r == self.coherent(),
    {
        let x: u64 = self.vault_x.amount;
        let y: u64 = self.vault_y.amount;
        let l: u64 = self.lp_mint.supply;
        ((x > 0 && y > 0 && l > 0) || (x == 0 && y == 0 && l == 0)) && self.user_lp.amount <= l
    }

    /// Burns shares for the proportional part of both reserves.
    ///
    /// Returns the amounts released and commits them together with the
    /// burn, or returns the reason and leaves every account as it was.
    /// The reasons, the first that applies:
    ///
    /// - `PoolLocked`: the pool is locked;
    /// - `InvalidAmount`: `amount` is zero, or both `min_x` and `min_y` are;
    /// - `InsufficientShares`: the withdrawer holds fewer than `amount`;
    /// - `InvariantViolated`: the accounts are not [coherent](Self::coherent);
    /// - `SlippageExceeded`: an amount released is below the caller's floor.
    ///
    /// A withdrawal that succeeds leaves the accounts coherent and backs
    /// every remaining share by at least as much of each reserve as before.
    pub fn withdraw(&mut self, amount: u64, min_x: u64, min_y: u64) -> (r: Result<
        XYAmounts,
        AmmError,
    >)
        ensures
            match old(self).outcome(amount, min_x, min_y) {
                Ok((after, released)) => r == Ok::<XYAmounts, AmmError>(released) && *final(self)
                    == after,
                Err(e) => r == Err::<XYAmounts, AmmError>(e),
            },
            r is Err ==> *final(self) == *old(self),
            old(self).config@.locked ==> r == Err::<XYAmounts, AmmError>(AmmError::PoolLocked),
            r is Ok ==> final(self).coherent() && final(self).config == old(self).config,
            r is Ok ==> backing_kept(
                old(self).vault_x.amount as int,
                old(self).lp_mint.supply as int,
                final(self).vault_x.amount as int,
                final(self).lp_mint.supply as int,
            ) && backing_kept(
                old(self).vault_y.amount as int,
                old(self).lp_mint.supply as int,
                final(self).vault_y.amount as int,
                final(self).lp_mint.supply as int,
            ),
    {
        if self.config.locked() {
            return Err(AmmError::PoolLocked);
        }
        if amount == 0 || (min_x == 0 && min_y == 0) {
            return Err(AmmError::InvalidAmount);
        }
        if amount > self.user_lp.amount {
            return Err(AmmError::InsufficientShares);
        }
        if !self.is_coherent() {
            return Err(AmmError::InvariantViolated);
        }
        let reserve_x: u64 = self.vault_x.amount;
        let reserve_y: u64 = self.vault_y.amount;
        let supply: u64 = self.lp_mint.supply;
        proof {
            lemma_withdraw_within(reserve_x as int, amount as int, supply as int);
            lemma_withdraw_within(reserve_y as int, amount as int, supply as int);
            lemma_withdraw_backing(reserve_x as int, amount as int, supply as int);
            lemma_withdraw_backing(reserve_y as int, amount as int, supply as int);
        }
        let released: XYAmounts = match withdraw_amounts(reserve_x, reserve_y, supply, amount) {
            Ok(released) => released,
            Err(e) => {
                return Err(e);
            },
        };
        if released.x < min_x || released.y < min_y {
            return Err(AmmError::SlippageExceeded);
        }
        let mut staged: Withdraw = *self;
        match staged.burn_lp_tokens(amount) {
            Ok(()) => {},
            Err(e) => {
                return Err(e);
            },
        }
        match staged.withdraw_token(true, released.x) {
            Ok(()) => {},
            Err(e) => {
                return Err(e);
            },
        }
        match staged.withdraw_token(false, released.y) {
            Ok(()) => {},
            Err(e) => {
                return Err(e);
            },
        }
        *self = staged;
        Ok(released)
    }

    /// Debits `amount` from the vault of asset X, or from that of asset Y.
    fn withdraw_token(&mut self, is_x: bool, amount: u64) -> (r: Result<(), AmmError>)
        ensures
            r is Ok <==> amount <= (if is_x {
                old(self).vault_x.amount
            } else {
                old(self).vault_y.amount
            }),
            r is Ok && is_x ==> *final(self) == (Withdraw {
                vault_x: TokenAccount { amount: (old(self).vault_x.amount - amount) as u64 },
                ..*old(self)
            }),
            r is Ok && !is_x ==> *final(self) == (Withdraw {
                vault_y: TokenAccount { amount: (old(self).vault_y.amount - amount) as u64 },
                ..*old(self)
            }),
            r is Err ==> r == Err::<(), AmmError>(AmmError::InsufficientLiquidity) && *final(self)
                == *old(self),
    {
        let debited = if is_x {
            self.vault_x.debit(amount)
        } else {
            self.vault_y.debit(amount)
        };
        match debited {
            Ok(()) => Ok(()),
            Err(_) => Err(AmmError::InsufficientLiquidity),
        }
    }

    /// Destroys `amount` shares of the withdrawer.
    fn burn_lp_tokens(&mut self, amount: u64) -> (r: Result<(), AmmError>)
        ensures
            r is Ok <==> amount <= old(self).user_lp.amount && amount <= old(self).lp_mint.supply,
            r is Ok ==> *final(self) == (Withdraw {
                lp_mint: Mint {
                    supply: (old(self).lp_mint.supply - amount) as u64,
                    ..old(self).lp_mint
                },
                user_lp: TokenAccount { amount: (old(self).user_lp.amount - amount) as u64 },
                ..*old(self)
            }),
            r is Err ==> r == Err::<(), AmmError>(AmmError::InsufficientShares) && *final(self)
                == *old(self),
    {
        match self.lp_mint.burn(&mut self.user_lp, amount) {
            Ok(()) => Ok(()),
            Err(_) => Err(AmmError::InsufficientShares),
        }
    }
}

} // verus!
