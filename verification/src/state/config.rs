use crate::address::Address;
use crate::amm_error::AmmError;
use crate::curve::BPS;
use vstd::prelude::*;

verus! {

/// What a pool record says, as a plain value.
pub struct ConfigView {
    pub seed: u64,
    pub authority: Option<Address>,
    pub mint_x: Address,
    pub mint_y: Address,
    pub lp_bump: u8,
    pub config_bump: u8,
    pub fee: u16,
    pub locked: bool,
}

impl ConfigView {
    /// The two assets differ and the fee is less than the whole.
    pub open spec fn valid(self) -> bool {
        &&& self.mint_x != self.mint_y
        &&& self.fee < BPS
    }

    /// The record after `caller` asked to set the lock to `value`: only the
    /// pool's authority may, and a pool without one stays as it is for ever.
    pub open spec fn set_lock(self, caller: Address, value: bool) -> Result<ConfigView, AmmError> {
        if self.authority == Some(caller) {
            Ok(ConfigView { locked: value, ..self })
        } else {
            Err(AmmError::Unauthorized)
        }
    }

    /// Anyone but the authority is refused; the authority may set the lock,
    /// which changes nothing else, and setting it twice to the same value is
    /// the same as setting it once.
    pub proof fn lemma_set_lock(self, caller: Address, value: bool)
        ensures
            self.authority != Some(caller) ==> self.set_lock(caller, value) == Err::<
                ConfigView,
                AmmError,
            >(AmmError::Unauthorized),
            self.authority == Some(caller) ==> ({
                let once = self.set_lock(caller, value);
                &&& once is Ok
                &&& once->Ok_0.locked == value
                &&& once->Ok_0 == (ConfigView { locked: value, ..self })
                &&& once->Ok_0.set_lock(caller, value) == once
                &&& self.valid() ==> once->Ok_0.valid()
            }),
    {
    }
}

/// The record of one pool: its identity `(mint_x, mint_y, seed)`, its fee in
/// basis points, its lock and the principal that may toggle it.
///
/// Every record is valid: its two assets differ and its fee is below
/// [`BPS`]. The identity and the fee never change.
#[derive(Clone, Copy, Debug, PartialEq, Eq)]
pub struct Config {
    seed: u64,
    authority: Option<Address>,
    mint_x: Address,
    mint_y: Address,
    lp_bump: u8,
    config_bump: u8,
    fee: u16,
    locked: bool,
}

impl View for Config {
    type V = ConfigView;

    closed spec fn view(&self) -> ConfigView {
        ConfigView {
            seed: self.seed,
            authority: self.authority,
            mint_x: self.mint_x,
            mint_y: self.mint_y,
            lp_bump: self.lp_bump,
            config_bump: self.config_bump,
            fee: self.fee,
            locked: self.locked,
        }
    }
}

impl Config {
    #[verifier::type_invariant]
    spec fn inv(self) -> bool {
        self@.valid()
    }

    /// Makes a record out of its parts, or says what is wrong with them: the
    /// two assets must differ and the fee must be below [`BPS`].
    pub fn new(
        seed: u64,
        authority: Option<Address>,
        mint_x: Address,
        mint_y: Address,
        lp_bump: u8,
        config_bump: u8,
        fee: u16,
        locked: bool,
    ) -> (r: Result<Config, AmmError>)
        ensures
            mint_x == mint_y ==> r == Err::<Config, AmmError>(AmmError::DuplicateAsset),
            mint_x != mint_y && fee >= BPS ==> r == Err::<Config, AmmError>(AmmError::InvalidFee),
            mint_x != mint_y && fee < BPS ==> r is Ok && r->Ok_0@ == (ConfigView {
                seed,
                authority,
                mint_x,
                mint_y,
                lp_bump,
                config_bump,
                fee,
                locked,
            }),
    {
        if mint_x == mint_y {
            Err(AmmError::DuplicateAsset)
        } else if fee >= BPS {
            Err(AmmError::InvalidFee)
        } else {
            Ok(Config { seed, authority, mint_x, mint_y, lp_bump, config_bump, fee, locked })
        }
    }

    /// The seed, the third part of the pool's identity.
    pub fn seed(&self) -> (r: u64)
        ensures
            r == self@.seed,
    {
        self.seed
    }

    /// The principal that may toggle the lock, if the pool has one.
    pub fn authority(&self) -> (r: Option<Address>)
        ensures
            r == self@.authority,
    {
        self.authority
    }

    /// The first asset of the pool.
    pub fn mint_x(&self) -> (r: Address)
        ensures
            r == self@.mint_x,
    {
        self.mint_x
    }

    /// The second asset of the pool.
    pub fn mint_y(&self) -> (r: Address)
        ensures
            r == self@.mint_y,
    {
        self.mint_y
    }

    /// The nonce that the host derived the share asset with.
    pub fn lp_bump(&self) -> (r: u8)
        ensures
            r == self@.lp_bump,
    {
        self.lp_bump
    }

    /// The nonce that the host derived the record's place with.
    pub fn config_bump(&self) -> (r: u8)
        ensures
            r == self@.config_bump,
    {
        self.config_bump
    }

    /// Whether the pool refuses user operations.
    pub fn locked(&self) -> (r: bool)
        ensures
            r == self@.locked,
            self@.valid(),
    {
        proof {
            use_type_invariant(self);
        }
        self.locked
    }

    /// The swap fee in basis points.
    pub fn fee(&self) -> (r: u16)
        ensures
            r == self@.fee,
            self@.valid(),
    {
        proof {
            use_type_invariant(self);
        }
        self.fee
    }

    /// Sets the lock for the pool's authority, and refuses anyone else.
    pub fn set_lock(&mut self, caller: &Address, value: bool) -> (r: Result<(), AmmError>)
        ensures
            r is Ok <==> old(self)@.authority == Some(*caller),
            r is Ok ==> Ok::<ConfigView, AmmError>(final(self)@) == old(self)@.set_lock(*caller, value),
            r is Err ==> r == Err::<(), AmmError>(AmmError::Unauthorized) && *final(self) == *old(self),
    {
        proof {
            use_type_invariant(&*self);
        }
        if self.authority == Some(*caller) {
            self.locked = value;
            Ok(())
        } else {
            Err(AmmError::Unauthorized)
        }
    }
}

} // verus!
