use crate::amm_error::AmmError;
use crate::curve::{coherent, swap_amount, swap_output, swap_quote, swap_residue, BPS};
use crate::ledger::{Mint, TokenAccount};
use crate::state::config::Config;
use crate::theorems::{lemma_swap_back, lemma_swap_back_small, lemma_swap_product};
use vstd::prelude::*;

verus! {

/// Which asset a swap pays in and which it pays out.
#[derive(Clone, Copy, Debug, PartialEq, Eq, Structural)]
pub enum Direction {
    /// Asset X goes in, asset Y comes out.
    XToY,
    /// Asset Y goes in, asset X comes out.
    YToX,
}

impl Direction {
    /// The direction that undoes this one.
    pub open spec fn opposite(self) -> Direction {
        match self {
            Direction::XToY => Direction::YToX,
            Direction::YToX => Direction::XToY,
        }
    }
}

/// What one swap touches: the pool's record, its two vaults and the share
/// asset.
#[derive(Clone, Copy, Debug, PartialEq, Eq)]
pub struct Swap {
    pub vault_x: TokenAccount,
    pub vault_y: TokenAccount,
    pub config: Config,
    pub lp_mint: Mint,
}

impl Swap {
    /// The vaults and the share supply agree.
    pub open spec fn coherent(self) -> bool {
        coherent(
            self.vault_x.amount as int,
            self.vault_y.amount as int,
            self.lp_mint.supply as int,
        )
    }

    /// The reserve that a swap in `direction` pays into.
    pub open spec fn reserve_in(self, direction: Direction) -> u64 {
        match direction {
            Direction::XToY => self.vault_x.amount,
            Direction::YToX => self.vault_y.amount,
        }
    }

    /// The reserve that a swap in `direction` pays out of.
    pub open spec fn reserve_out(self, direction: Direction) -> u64 {
        match direction {
            Direction::XToY => self.vault_y.amount,
            Direction::YToX => self.vault_x.amount,
        }
    }

    /// What a swap of `amount_in` pays out, before anything moves.
    pub open spec fn quote(self, direction: Direction, amount_in: u64, min_out: u64) -> Result<
        u64,
        AmmError,
    > {
        if self.config@.locked {
            Err(AmmError::PoolLocked)
        } else if amount_in == 0 || min_out == 0 {
            Err(AmmError::InvalidAmount)
        } else if self.lp_mint.supply == 0 {
            Err(AmmError::EmptyPool)
        } else if !self.coherent() {
            Err(AmmError::InvariantViolated)
        } else {
            match swap_quote(
                self.reserve_in(direction),
                self.reserve_out(direction),
                amount_in,
                self.config@.fee,
            ) {
                Err(e) => Err(e),
                Ok(out) => if out < min_out {
                    Err(AmmError::SlippageExceeded)
                } else {
                    Ok(out)
                },
            }
        }
    }

    /// The accounts after the whole of `amount_in` entered one vault and
    /// `out` left the other. The fee stays in the pool.
    pub open spec fn settled(self, direction: Direction, amount_in: u64, out: u64) -> Swap {
        match direction {
            Direction::XToY => Swap {
                vault_x: TokenAccount { amount: (self.vault_x.amount + amount_in) as u64 },
                vault_y: TokenAccount { amount: (self.vault_y.amount - out) as u64 },
                ..self
            },
            Direction::YToX => Swap {
                vault_x: TokenAccount { amount: (self.vault_x.amount - out) as u64 },
                vault_y: TokenAccount { amount: (self.vault_y.amount + amount_in) as u64 },
                ..self
            },
        }
    }

    /// The whole swap: the accounts afterwards and the amount paid out, or
    /// the reason for which nothing happened.
    pub open spec fn outcome(self, direction: Direction, amount_in: u64, min_out: u64) -> Result<
        (Swap, u64),
        AmmError,
    > {
        match self.quote(direction, amount_in, min_out) {
            Err(e) => Err(e),
            Ok(out) => if self.reserve_in(direction) + amount_in > u64::MAX {
                Err(AmmError::Overflow)
            } else {
                Ok((self.settled(direction, amount_in, out), out))
            },
        }
    }

    /// The product of the two reserves, the `k` of `x * y = k`.
    pub open spec fn product(self) -> int {
        self.vault_x.amount * self.vault_y.amount
    }

    /// A swap never lowers the product of the reserves, and leaves it as it
    /// was only when the fee is zero and the division left nothing over. It
    /// pays out less than the output reserve held.
    pub proof fn lemma_swap_grows_product(
        self,
        direction: Direction,
        amount_in: u64,
        min_out: u64,
    )
        requires
            self.config@.valid(),
            self.outcome(direction, amount_in, min_out) is Ok,
        ensures
            ({
                let (after, out) = self.outcome(direction, amount_in, min_out)->Ok_0;
                let r_in = self.reserve_in(direction) as int;
                let r_out = self.reserve_out(direction) as int;
                let fee = self.config@.fee as int;
                &&& out == swap_output(r_in, r_out, amount_in as int, fee)
                &&& 0 < min_out <= out < r_out
                &&& after.reserve_in(direction) == r_in + amount_in
                &&& after.reserve_out(direction) == r_out - out
                &&& after.coherent()
                &&& after.product() >= self.product()
                &&& (after.product() == self.product() <==> fee == 0 && swap_residue(
                    r_in,
                    r_out,
                    amount_in as int,
                    fee,
                ) == 0)
            }),
    {
        let (after, out) = self.outcome(direction, amount_in, min_out)->Ok_0;
        let r_in = self.reserve_in(direction) as int;
        let r_out = self.reserve_out(direction) as int;
        let fee = self.config@.fee as int;
        lemma_swap_product(r_in, r_out, amount_in as int, fee);
        let grown = (r_in + amount_in) * (r_out - out);
        assert(after.product() == grown && self.product() == r_in * r_out) by {
            match direction {
                Direction::XToY => {},
                Direction::YToX => {
                    assert((r_out - out) * (r_in + amount_in) == (r_in + amount_in) * (r_out
                        - out)) by (nonlinear_arith);
                    assert(r_out * r_in == r_in * r_out) by (nonlinear_arith);
                },
            }
        }
    }

    /// Swapping there and back at once gains nothing.
    ///
    /// What comes back is at most the input, scaled twice by the fee and
    /// once by `(r_in + a_in) / (r_in + (k / M)^2 * a_in)`, with `M` for
    /// [`BPS`] and `k` for `M - fee`: the fee of the first swap stays in the
    /// reserve that the second one draws on.
    pub proof fn lemma_swap_there_and_back(
        self,
        direction: Direction,
        amount_in: u64,
        min_out: u64,
        min_back: u64,
    )
        requires
            self.config@.valid(),
            self.outcome(direction, amount_in, min_out) is Ok,
            ({
                let (mid, out) = self.outcome(direction, amount_in, min_out)->Ok_0;
                mid.outcome(direction.opposite(), out, min_back) is Ok
            }),
        ensures
            ({
                let (mid, out) = self.outcome(direction, amount_in, min_out)->Ok_0;
                let back = mid.outcome(direction.opposite(), out, min_back)->Ok_0.1;
                let r_in = self.reserve_in(direction) as int;
                let k = BPS - self.config@.fee;
                &&& back <= amount_in
                &&& back * (r_in * (BPS * BPS) + (k * k) * amount_in) <= (k * k) * amount_in * (r_in
                    + amount_in)
            }),
    {
        let (mid, out) = self.outcome(direction, amount_in, min_out)->Ok_0;
        let r_in = self.reserve_in(direction) as int;
        let r_out = self.reserve_out(direction) as int;
        let fee = self.config@.fee as int;
        self.lemma_swap_grows_product(direction, amount_in, min_out);
        mid.lemma_swap_grows_product(direction.opposite(), out, min_back);
        lemma_swap_back(r_in, r_out, amount_in as int, fee);
    }

    /// A swap that is small beside the reserve it pays into comes back as
    /// at most the input scaled twice by the fee, and one unit of rounding:
    /// `back <= a_in * (k / M)^2 + 1`.
    ///
    /// Small means `k^2 * a_in^2 * (M^2 - k^2) <= M^2 * (r_in * M^2 + k^2 * a_in)`.
    pub proof fn lemma_small_swap_there_and_back(
        self,
        direction: Direction,
        amount_in: u64,
        min_out: u64,
        min_back: u64,
    )
        requires
            self.config@.valid(),
            self.outcome(direction, amount_in, min_out) is Ok,
            ({
                let (mid, out) = self.outcome(direction, amount_in, min_out)->Ok_0;
                mid.outcome(direction.opposite(), out, min_back) is Ok
            }),
            ({
                let r_in = self.reserve_in(direction) as int;
                let k = BPS - self.config@.fee;
                (k * k) * (amount_in * amount_in) * (BPS * BPS - k * k) <= (BPS * BPS) * (r_in * (
                BPS * BPS) + (k * k) * amount_in)
            }),
        ensures
            ({
                let (mid, out) = self.outcome(direction, amount_in, min_out)->Ok_0;
                let back = mid.outcome(direction.opposite(), out, min_back)->Ok_0.1;
                let k = BPS - self.config@.fee;
                back * (BPS * BPS) <= (k * k) * amount_in + BPS * BPS
            }),
    {
        let (mid, out) = self.outcome(direction, amount_in, min_out)->Ok_0;
        let r_in = self.reserve_in(direction) as int;
        let r_out = self.reserve_out(direction) as int;
        let fee = self.config@.fee as int;
        self.lemma_swap_grows_product(direction, amount_in, min_out);
        mid.lemma_swap_grows_product(direction.opposite(), out, min_back);
        lemma_swap_back_small(r_in, r_out, amount_in as int, fee);
    }

    fn is_coherent(&self) -> (r: bool)
        ensures
            r == self.coherent(),
    {
        let x: u64 = self.vault_x.amount;
        let y: u64 = self.vault_y.amount;
        let l: u64 = self.lp_mint.supply;
        (x > 0 && y > 0 && l > 0) || (x == 0 && y == 0 && l == 0)
    }

    /// Swaps `amount_in` of one asset for the other along the curve.
    ///
    /// Returns the amount paid out and commits both movements, or returns
    /// the reason and leaves every account as it was. The reasons, the
    /// first that applies:
    ///
    /// - `PoolLocked`: the pool is locked;
    /// - `InvalidAmount`: `amount_in` or `min_out` is zero;
    /// - `EmptyPool`: no shares are issued;
    /// - `InvariantViolated`: the accounts are not [coherent](Self::coherent);
    /// - `InsufficientLiquidity`: the swap would pay nothing;
    /// - `SlippageExceeded`: the output is below `min_out`;
    /// - `Overflow`: the vault that is paid into would not fit.
    ///
    /// A swap that succeeds leaves the accounts coherent and the shares as
    /// they were, and never lowers the product of the reserves.
    pub fn swap(&mut self, direction: Direction, amount_in: u64, min_out: u64) -> (r: Result<
        u64,
        AmmError,
    >)
        ensures
            match old(self).outcome(direction, amount_in, min_out) {
                Ok((after, out)) => r == Ok::<u64, AmmError>(out) && *final(self) == after,
                Err(e) => r == Err::<u64, AmmError>(e),
            },
            r is Err ==> *final(self) == *old(self),
            old(self).config@.locked ==> r == Err::<u64, AmmError>(AmmError::PoolLocked),
            r is Ok ==> final(self).coherent() && final(self).config == old(self).config
                && final(self).lp_mint == old(self).lp_mint,
            r is Ok ==> final(self).product() >= old(self).product(),
            r is Ok ==> (final(self).product() == old(self).product() <==> old(self).config@.fee
                == 0 && swap_residue(
                old(self).reserve_in(direction) as int,
                old(self).reserve_out(direction) as int,
                amount_in as int,
                old(self).config@.fee as int,
            ) == 0),
    {
        if self.config.locked() {
            return Err(AmmError::PoolLocked);
        }
        if amount_in == 0 || min_out == 0 {
            return Err(AmmError::InvalidAmount);
        }
        if self.lp_mint.supply == 0 {
            return Err(AmmError::EmptyPool);
        }
        if !self.is_coherent() {
            return Err(AmmError::InvariantViolated);
        }
        let is_x: bool = match direction {
            Direction::XToY => true,
            Direction::YToX => false,
        };
        let r_in: u64 = if is_x {
            self.vault_x.amount
        } else {
            self.vault_y.amount
        };
        let r_out: u64 = if is_x {
            self.vault_y.amount
        } else {
            self.vault_x.amount
        };
        let fee: u16 = self.config.fee();
        let out: u64 = match swap_amount(r_in, r_out, amount_in, fee) {
            Ok(out) => out,
            Err(e) => {
                return Err(e);
            },
        };
        if out < min_out {
            return Err(AmmError::SlippageExceeded);
        }
        let mut staged: Swap = *self;
        match staged.deposit_token(is_x, amount_in) {
            Ok(()) => {},
            Err(e) => {
                return Err(e);
            },
        }
        match staged.withdraw_token(!is_x, out) {
            Ok(()) => {},
            Err(e) => {
                return Err(e);
            },
        }
        proof {
            old(self).lemma_swap_grows_product(direction, amount_in, min_out);
        }
        *self = staged;
        Ok(out)
    }

    /// Credits `amount` to the vault of asset X, or to that of asset Y.
    fn deposit_token(&mut self, is_x: bool, amount: u64) -> (r: Result<(), AmmError>)
        ensures
            r is Ok <==> (if is_x {
                old(self).vault_x.amount
            } else {
                old(self).vault_y.amount
            }) + amount <= u64::MAX,
            r is Ok && is_x ==> *final(self) == (Swap {
                vault_x: TokenAccount { amount: (old(self).vault_x.amount + amount) as u64 },
                ..*old(self)
            }),
            r is Ok && !is_x ==> *final(self) == (Swap {
                vault_y: TokenAccount { amount: (old(self).vault_y.amount + amount) as u64 },
                ..*old(self)
            }),
            r is Err ==> r == Err::<(), AmmError>(AmmError::Overflow) && *final(self) == *old(self),
    {
        let credited = if is_x {
            self.vault_x.credit(amount)
        } else {
            self.vault_y.credit(amount)
        };
        match credited {
            Ok(()) => Ok(()),
            Err(_) => Err(AmmError::Overflow),
        }
    }

    /// Debits `amount` from the vault of asset X, or from that of asset Y.
    fn withdraw_token(&mut self, is_x: bool, amount: u64) -> (r: Result<(), AmmError>)
        ensures
            r is Ok <==> amount <= (if is_x {
                old(self).vault_x.amount
            } else {
                old(self).vault_y.amount
            }),
            r is Ok && is_x ==> *final(self) == (Swap {
                vault_x: TokenAccount { amount: (old(self).vault_x.amount - amount) as u64 },
                ..*old(self)
            }),
            r is Ok && !is_x ==> *final(self) == (Swap {
                vault_y: TokenAccount { amount: (old(self).vault_y.amount - amount) as u64 },
                ..*old(self)
            }),
            r is Err ==> r == Err::<(), AmmError>(AmmError::InsufficientLiquidity) && *final(self)
                == *old(self),
    {
        let debited = if is_x {
            self.vault_x.debit(amount)
        } else {
            self.vault_y.debit(amount)
        };
        match debited {
            Ok(()) => Ok(()),
            Err(_) => Err(AmmError::InsufficientLiquidity),
        }
    }
}

} // verus!
