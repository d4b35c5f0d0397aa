use vstd::prelude::*;

verus! {

/// The closed set of reasons for which the pool refuses an operation.
///
/// An operation that is refused changes nothing.
#[derive(Clone, Copy, Debug, PartialEq, Eq, Structural)]
pub enum AmmError {
    /// The pool is locked and takes no deposit, withdrawal or swap.
    PoolLocked,
    /// An amount that has to be positive is zero.
    InvalidAmount,
    /// The computed amount lies beyond the limit that the caller set.
    SlippageExceeded,
    /// The caller holds fewer shares than are to be burnt.
    InsufficientShares,
    /// The swap would pay nothing, or all that the output reserve holds.
    InsufficientLiquidity,
    /// There are no shares, so there is nothing to swap against.
    EmptyPool,
    /// An amount or a balance would exceed sixty-four bits.
    Overflow,
    /// The two assets of a pool are the same asset.
    DuplicateAsset,
    /// The fee reaches or exceeds the whole.
    InvalidFee,
    /// A pool already stands where one is to be created.
    AlreadyExists,
    /// The caller is not the pool's authority, or the pool has none.
    Unauthorized,
    /// The reserves and the shares contradict each other: the state is
    /// corrupted, and the host should treat this as fatal.
    InvariantViolated,
}

impl AmmError {
    /// The words that go with each reason.
    pub open spec fn text(self) -> Seq<char> {
        match self {
            AmmError::PoolLocked => "Pool is locked"@,
            AmmError::InvalidAmount => "invalid amount"@,
            AmmError::SlippageExceeded => "slippage limit exceeded"@,
            AmmError::InsufficientShares => "insufficient shares"@,
            AmmError::InsufficientLiquidity => "insufficient liquidity"@,
            AmmError::EmptyPool => "pool is empty"@,
            AmmError::Overflow => "amount overflow"@,
            AmmError::DuplicateAsset => "duplicate asset"@,
            AmmError::InvalidFee => "invalid fee"@,
            AmmError::AlreadyExists => "pool already exists"@,
            AmmError::Unauthorized => "unauthorized"@,
            AmmError::InvariantViolated => "invariant violated"@,
        }
    }

    /// The message to show for this reason.
    pub fn message(&self) -> (r: &'static str)
        ensures
            r@ == self.text(),
    {
        match self {
            AmmError::PoolLocked => "Pool is locked",
            AmmError::InvalidAmount => "invalid amount",
            AmmError::SlippageExceeded => "slippage limit exceeded",
            AmmError::InsufficientShares => "insufficient shares",
            AmmError::InsufficientLiquidity => "insufficient liquidity",
            AmmError::EmptyPool => "pool is empty",
            AmmError::Overflow => "amount overflow",
            AmmError::DuplicateAsset => "duplicate asset",
            AmmError::InvalidFee => "invalid fee",
            AmmError::AlreadyExists => "pool already exists",
            AmmError::Unauthorized => "unauthorized",
            AmmError::InvariantViolated => "invariant violated",
        }
    }
}

} // verus!
