use crate::address::Address;
use crate::amm_error::AmmError;
use crate::curve::BPS;
use crate::ledger::{Mint, TokenAccount};
use crate::state::config::{Config, ConfigView};
use vstd::prelude::*;

verus! {

/// The decimals of every pool's share asset.
pub const SHARE_DECIMALS: u8 = 6;

/// The two nonces that the host derived the pool's accounts with.
#[derive(Clone, Copy, Debug, PartialEq, Eq, Structural)]
pub struct InitializeBumps {
    pub config: u8,
    pub lp_mint: u8,
}

/// What names a pool: its two assets, in this order, and its seed.
#[derive(Clone, Copy, Debug, PartialEq, Eq)]
pub struct PoolId {
    pub mint_x: Address,
    pub mint_y: Address,
    pub seed: u64,
}

/// What the creation of a pool touches: the two assets, the place of the
/// pool's record, which is empty until the pool exists, and the accounts
/// that the pool will own.
#[derive(Clone, Copy, Debug, PartialEq, Eq)]
pub struct Initialize {
    pub mint_x: Address,
    pub mint_y: Address,
    pub config: Option<Config>,
    pub lp_mint: Mint,
    pub vault_x: TokenAccount,
    pub vault_y: TokenAccount,
}

impl Initialize {
    /// Why no pool can be created here with this fee, if anything stands
    /// against it.
    pub open spec fn rejection(self, fee: u16) -> Option<AmmError> {
        if self.mint_x == self.mint_y {
            Some(AmmError::DuplicateAsset)
        } else if fee >= BPS {
            Some(AmmError::InvalidFee)
        } else if self.config is Some {
            Some(AmmError::AlreadyExists)
        } else {
            None
        }
    }

    /// Creates the pool: an unlocked record, two empty vaults and a share
    /// asset of which nothing is issued yet.
    ///
    /// Returns the pool's identity, or the reason and leaves everything as
    /// it was.
    pub fn init(
        &mut self,
        seed: u64,
        fee: u16,
        authority: Option<Address>,
        bumps: &InitializeBumps,
    ) -> (r: Result<PoolId, AmmError>)
        ensures
            match old(self).rejection(fee) {
                Some(e) => r == Err::<PoolId, AmmError>(e),
                None => {
                    &&& r == Ok::<PoolId, AmmError>(
                        PoolId { mint_x: old(self).mint_x, mint_y: old(self).mint_y, seed },
                    )
                    &&& final(self).config is Some
                    &&& final(self).config->Some_0@ == (ConfigView {
                        seed,
                        authority,
                        mint_x: old(self).mint_x,
                        mint_y: old(self).mint_y,
                        lp_bump: bumps.lp_mint,
                        config_bump: bumps.config,
                        fee,
                        locked: false,
                    })
                    &&& final(self).lp_mint == (Mint { supply: 0, decimals: SHARE_DECIMALS })
                    &&& final(self).vault_x == (TokenAccount { amount: 0 })
                    &&& final(self).vault_y == (TokenAccount { amount: 0 })
                    &&& final(self).mint_x == old(self).mint_x
                    &&& final(self).mint_y == old(self).mint_y
                },
            },
            r is Err ==> *final(self) == *old(self),
    {
        let created = Config::new(
            seed,
            authority,
            self.mint_x,
            self.mint_y,
            bumps.lp_mint,
            bumps.config,
            fee,
            false,
        );
        match created {
            Err(e) => Err(e),
            Ok(config) => {
                if self.config.is_some() {
                    return Err(AmmError::AlreadyExists);
                }
                self.config = Some(config);
                self.lp_mint = Mint { supply: 0, decimals: SHARE_DECIMALS };
                self.vault_x = TokenAccount { amount: 0 };
                self.vault_y = TokenAccount { amount: 0 };
                Ok(PoolId { mint_x: self.mint_x, mint_y: self.mint_y, seed })
            },
        }
    }
}

} // verus!
