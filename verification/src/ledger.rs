use vstd::prelude::*;

verus! {

/// Why the ledger refuses a movement of value.
#[derive(Clone, Copy, Debug, PartialEq, Eq, Structural)]
pub enum LedgerError {
    /// The account holds less than what is to leave it.
    InsufficientBalance,
    /// The account or the supply would exceed sixty-four bits.
    Overflow,
}

/// One account of the ledger: the balance of one asset that one principal
/// holds.
///
/// The pool's operations work on the accounts that the pool controls, its
/// two vaults and the share accounts of its share asset, as the host hands
/// them in. Which account belongs to whom, and what leaves or reaches a
/// caller's own asset accounts, is the host's side of each movement.
#[derive(Clone, Copy, Debug, PartialEq, Eq, Structural)]
pub struct TokenAccount {
    pub amount: u64,
}

/// A share asset: how much of it is issued, and in how many decimals it
/// counts.
#[derive(Clone, Copy, Debug, PartialEq, Eq, Structural)]
pub struct Mint {
    pub supply: u64,
    pub decimals: u8,
}

impl TokenAccount {
    /// Adds `amount` to the balance, or refuses and leaves it as it was.
    pub fn credit(&mut self, amount: u64) -> (r: Result<(), LedgerError>)
        ensures
            r is Ok <==> old(self).amount + amount <= u64::MAX,
            r is Ok ==> final(self).amount == old(self).amount + amount,
            r is Err ==> r == Err::<(), LedgerError>(LedgerError::Overflow) && *final(self) == *old(self),
    {
        match self.amount.checked_add(amount) {
            Some(sum) => {
                self.amount = sum;
                Ok(())
            },
            None => Err(LedgerError::Overflow),
        }
    }

    /// Takes `amount` from the balance, or refuses and leaves it as it was.
    pub fn debit(&mut self, amount: u64) -> (r: Result<(), LedgerError>)
        ensures
            r is Ok <==> amount <= old(self).amount,
            r is Ok ==> final(self).amount == old(self).amount - amount,
            r is Err ==> r == Err::<(), LedgerError>(LedgerError::InsufficientBalance) && *final(self)
                == *old(self),
    {
        if amount <= self.amount {
            self.amount = self.amount - amount;
            Ok(())
        } else {
            Err(LedgerError::InsufficientBalance)
        }
    }
}

/// Moves `amount` from one account to another of the same asset: both
/// balances change, or neither does.
pub fn transfer(from: &mut TokenAccount, to: &mut TokenAccount, amount: u64) -> (r: Result<
    (),
    LedgerError,
>)
    ensures
        amount > old(from).amount ==> r == Err::<(), LedgerError>(LedgerError::InsufficientBalance),
        amount <= old(from).amount && old(to).amount + amount > u64::MAX ==> r == Err::<
            (),
            LedgerError,
        >(LedgerError::Overflow),
        amount <= old(from).amount && old(to).amount + amount <= u64::MAX ==> r is Ok,
        r is Ok ==> final(from).amount == old(from).amount - amount && final(to).amount == old(
            to,
        ).amount + amount,
        r is Err ==> *final(from) == *old(from) && *final(to) == *old(to),
{
    if amount > from.amount {
        return Err(LedgerError::InsufficientBalance);
    }
    match to.credit(amount) {
        Ok(()) => {
            from.amount = from.amount - amount;
            Ok(())
        },
        Err(e) => Err(e),
    }
}

impl Mint {
    /// Issues `amount` new shares to `to`: both the supply and the holder's
    /// balance grow by `amount`, or neither changes.
    pub fn mint_to(&mut self, to: &mut TokenAccount, amount: u64) -> (r: Result<(), LedgerError>)
        ensures
            r is Ok <==> old(self).supply + amount <= u64::MAX && old(to).amount + amount
                <= u64::MAX,
            r is Ok ==> final(self).supply == old(self).supply + amount && final(self).decimals
                == old(self).decimals && final(to).amount == old(to).amount + amount,
            r is Err ==> r == Err::<(), LedgerError>(LedgerError::Overflow) && *final(self) == *old(self)
                && *final(to) == *old(to),
    {
        match self.supply.checked_add(amount) {
            Some(supply) => match to.credit(amount) {
                Ok(()) => {
                    self.supply = supply;
                    Ok(())
                },
                Err(e) => Err(e),
            },
            None => Err(LedgerError::Overflow),
        }
    }

    /// Destroys `amount` shares held by `from`: both the supply and the
    /// holder's balance shrink by `amount`, or neither changes.
    pub fn burn(&mut self, from: &mut TokenAccount, amount: u64) -> (r: Result<(), LedgerError>)
        ensures
            r is Ok <==> amount <= old(from).amount && amount <= old(self).supply,
            r is Ok ==> final(self).supply == old(self).supply - amount && final(self).decimals
                == old(self).decimals && final(from).amount == old(from).amount - amount,
            r is Err ==> r == Err::<(), LedgerError>(LedgerError::InsufficientBalance) && *final(self)
                == *old(self) && *final(from) == *old(from),
    {
        if amount <= self.supply {
            match from.debit(amount) {
                Ok(()) => {
                    self.supply = self.supply - amount;
                    Ok(())
                },
                Err(e) => Err(e),
            }
        } else {
            Err(LedgerError::InsufficientBalance)
        }
    }
}

} // verus!
