//! The balance rules: absolute set, deposit and withdrawal, each of which
//! appends one entry to the audit trail or changes nothing at all.

use crate::error::LedgerError;
use crate::record::{ChangeDetail, ChangeDetailView, IdentityKey, TokenData, TokenDataView};
use vstd::prelude::*;

verus! {

impl TokenDataView {
    /// The record after its balance is set to `entry.amount` and `entry` is
    /// appended.
    pub open spec fn set(self, entry: ChangeDetailView) -> TokenDataView {
        TokenDataView { amount: entry.amount, history: self.history.push(entry) }
    }

    /// The record after `entry.amount` is added and `entry` is appended, or
    /// the refusal where the sum leaves the 32-bit range.
    pub open spec fn deposit(self, entry: ChangeDetailView) -> Result<TokenDataView, LedgerError> {
        if self.amount + entry.amount > u32::MAX {
            Err(LedgerError::ArithmeticOverflow)
        } else {
            Ok(
                TokenDataView {
                    amount: (self.amount + entry.amount) as u32,
                    history: self.history.push(entry),
                },
            )
        }
    }

    /// The record after `entry.amount` is taken and `entry` is appended, or
    /// the refusal where the balance does not cover it.
    pub open spec fn withdraw(self, entry: ChangeDetailView) -> Result<TokenDataView, LedgerError> {
        if entry.amount > self.amount {
            Err(LedgerError::InsufficientFunds)
        } else {
            Ok(
                TokenDataView {
                    amount: (self.amount - entry.amount) as u32,
                    history: self.history.push(entry),
                },
            )
        }
    }
}

impl TokenData {
    /// Adds `entry` at the end of the history and leaves the balance alone.
    fn append(&mut self, entry: ChangeDetail)
        ensures
            final(self).amount == old(self).amount,
            final(self)@.history == old(self)@.history.push(entry@),
    {
        self.history.push(entry);
        assert(self@.history =~= old(self)@.history.push(entry@));
    }

    /// Sets the balance to `amount`, whatever it was, and records the change
    /// as made by `from` on the record of `to`.
    pub fn set(&mut self, amount: u32, from: IdentityKey, to: IdentityKey, timestamp: i64)
        ensures
            final(self)@ == old(self)@.set(
                (ChangeDetailView { amount, from: from@, to: to@, timestamp }),
            ),
    {
        self.amount = amount;
        self.append(ChangeDetail { amount, from, to, timestamp });
    }

    /// Adds `amount` to the balance and records the change as made by `owner`
    /// on its own record. Where the sum would leave the 32-bit range the
    /// record stays as it was.
    pub fn deposit(&mut self, amount: u32, owner: IdentityKey, timestamp: i64) -> (r: Result<
        (),
        LedgerError,
    >)
        ensures
            match old(self)@.deposit(
                (ChangeDetailView { amount, from: owner@, to: owner@, timestamp }),
            ) {
                Ok(after) => r is Ok && final(self)@ == after,
                Err(e) => r == Err::<(), LedgerError>(e) && *final(self) == *old(self),
            },
    {
        match self.amount.checked_add(amount) {
            Some(sum) => {
                self.amount = sum;
                self.append(ChangeDetail { amount, from: owner, to: owner, timestamp });
                Ok(())
            },
            None => Err(LedgerError::ArithmeticOverflow),
        }
    }

    /// Takes `amount` from the balance and records the change as made by
    /// `owner` on its own record. Where the balance does not cover `amount`
    /// the record stays as it was.
    pub fn withdraw(&mut self, amount: u32, owner: IdentityKey, timestamp: i64) -> (r: Result<
        (),
        LedgerError,
    >)
        ensures
            match old(self)@.withdraw(
                (ChangeDetailView { amount, from: owner@, to: owner@, timestamp }),
            ) {
                Ok(after) => r is Ok && final(self)@ == after,
                Err(e) => r == Err::<(), LedgerError>(e) && *final(self) == *old(self),
            },
    {
        if self.amount < amount {
            return Err(LedgerError::InsufficientFunds);
        }
        self.amount = self.amount - amount;
        self.append(ChangeDetail { amount, from: owner, to: owner, timestamp });
        Ok(())
    }
}

} // verus!
