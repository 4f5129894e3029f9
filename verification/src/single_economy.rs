//! Balance rules of the single-currency ledger.
//!
//! The ledger's rows live in its own storage; the storage collaborator
//! reads a balance, lets these functions decide, and writes back what
//! they return.  The one rule with teeth: a transfer is refused once the
//! sender already stands at or below the debt limit.

use vstd::prelude::*;

verus! {

/// The single-currency ledger's tunable state: how deep into debt an
/// account may go (stored negated, as a floor).
pub struct SingleMoneySqlite {
    pub debt_limit: i32,
}

impl SingleMoneySqlite {
    /// A ledger whose debt floor is the negation of the given allowance.
    pub fn init(debt_limit: i32) -> (r: SingleMoneySqlite)
        requires
            debt_limit > i32::MIN,
        ensures
            r.debt_limit == -debt_limit,
    {
        SingleMoneySqlite { debt_limit: -debt_limit }
    }

    /// Replaces the debt floor with the negation of the given allowance.
    pub fn _setdebt_limit(&mut self, debt_limit: i32)
        requires
            debt_limit > i32::MIN,
        ensures
            final(self).debt_limit == -debt_limit,
    {
        self.debt_limit = -debt_limit;
    }

    /// The balance after a deposit of `delta`.
    pub fn add_pl_money(&self, balance: i32, delta: i32) -> (r: i32)
        requires
            i32::MIN <= balance + delta <= i32::MAX,
        ensures
            r == balance + delta,
    {
        balance + delta
    }

    /// The balance after a withdrawal of `delta`.
    pub fn reduce_pl_money(&self, balance: i32, delta: i32) -> (r: i32)
        requires
            i32::MIN <= balance - delta <= i32::MAX,
        ensures
            r == balance - delta,
    {
        balance - delta
    }

    /// The transfer decision: refused when the sender already stands at
    /// or below the debt floor — whatever the amount, no arithmetic
    /// happens on that path — otherwise the amount moves from the first
    /// balance to the second.
    pub fn transfer_pl_money(&self, balance1: i32, balance2: i32, amount: i32) -> (r: Option<
        (i32, i32),
    >)
        requires
            balance1 > self.debt_limit ==> i32::MIN <= balance1 - amount <= i32::MAX,
            balance1 > self.debt_limit ==> i32::MIN <= balance2 + amount <= i32::MAX,
        ensures
            balance1 <= self.debt_limit ==> r is None,
            balance1 > self.debt_limit ==> (r matches Some(p) && p.0 == balance1 - amount && p.1
                == balance2 + amount),
    {
        if balance1 <= self.debt_limit {
            None
        } else {
            Some((balance1 - amount, balance2 + amount))
        }
    }
}

} // verus!
