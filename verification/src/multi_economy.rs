//! Balance and naming rules of the multi-currency ledger.
//!
//! Each currency is a named economy; each row keys a balance by player
//! and currency.  The rows live in the ledger's own storage; the storage
//! collaborator reads what a rule needs, lets these functions decide,
//! and writes back what they return.  Note the transfer rule here is the
//! mirror of the single-currency one: the sender must stand at or above
//! the debt floor.

use vstd::prelude::*;

verus! {

/// The multi-currency ledger's tunable state.
pub struct MultiMoneySqlite {
    pub default_economy: String,
    pub debt_limit: i32,
}

impl Default for MultiMoneySqlite {
    /// The built-in ledger: one economy named "money", debt floor -200.
    fn default() -> (r: MultiMoneySqlite)
        ensures
            r.default_economy@ == "money"@,
            r.debt_limit == -200,
    {
        MultiMoneySqlite { default_economy: "money".to_owned(), debt_limit: -200 }
    }
}

/// One named economy and its access key.
pub struct MultiMoney {
    pub money: String,
    pub key: String,
}

/// One player's balance in one economy.
pub struct MultiPlayerMoney {
    pub uuid: String,
    pub money: String,
    pub balance: i32,
}

/// The decision on renaming an economy.
pub enum MoneyKeyUpdate {
    /// The economy exists; carry the rename out.
    Proceed,
    /// The economy is missing but the new name is already taken.
    NameTaken,
    /// Neither name exists.
    NotFound,
}

impl MultiMoneySqlite {
    /// The balance after a deposit of `delta`.
    pub fn add_pl_money(&self, balance: i32, delta: i32) -> (r: i32)
        requires
            i32::MIN <= balance + delta <= i32::MAX,
        ensures
            r == balance + delta,
    {
        balance + delta
    }

    /// The balance after a withdrawal of `delta`.
    pub fn reduce_pl_money(&self, balance: i32, delta: i32) -> (r: i32)
        requires
            i32::MIN <= balance - delta <= i32::MAX,
        ensures
            r == balance - delta,
    {
        balance - delta
    }

    /// The transfer decision: allowed exactly when the sender stands at
    /// or above the debt floor, in which case the amount moves from the
    /// first balance to the second.  A refusal does no arithmetic, so it
    /// holds for any amount.
    pub fn transfer_pl_money(&self, balance1: i32, balance2: i32, amount: i32) -> (r: Option<
        (i32, i32),
    >)
        requires
            balance1 >= self.debt_limit ==> i32::MIN <= balance1 - amount <= i32::MAX,
            balance1 >= self.debt_limit ==> i32::MIN <= balance2 + amount <= i32::MAX,
        ensures
            balance1 >= self.debt_limit ==> (r matches Some(p) && p.0 == balance1 - amount && p.1
                == balance2 + amount),
            balance1 < self.debt_limit ==> r is None,
    {
        if balance1 >= self.debt_limit {
            Some((balance1 - amount, balance2 + amount))
        } else {
            None
        }
    }

    /// The rename decision, from whether the old economy and the new
    /// name exist: only an existing economy is renamed, and an existing
    /// target name is reported as taken.
    pub fn update_money_key(&self, old_exists: bool, new_exists: bool) -> (r: MoneyKeyUpdate)
        ensures
            old_exists ==> r is Proceed,
            !old_exists && new_exists ==> r is NameTaken,
            !old_exists && !new_exists ==> r is NotFound,
    {
        if old_exists {
            MoneyKeyUpdate::Proceed
        } else if new_exists {
            MoneyKeyUpdate::NameTaken
        } else {
            MoneyKeyUpdate::NotFound
        }
    }
}

/// The names of the given economies, in order — the listing the
/// all-economies route answers with.
pub fn money_names(moneys: &Vec<MultiMoney>) -> (r: Vec<String>)
    ensures
        r@.len() == moneys@.len(),
        forall|i: int| 0 <= i < r@.len() ==> (#[trigger] r@[i])@ == moneys@[i].money@,
{
    let mut r: Vec<String> = Vec::new();
    let n = moneys.len();
    let mut i: usize = 0;
    while i < n
        invariant
            n == moneys@.len(),
            i <= n,
            r@.len() == i,
            forall|k: int| 0 <= k < i ==> (#[trigger] r@[k])@ == moneys@[k].money@,
        decreases n - i,
    {
        r.push(moneys[i].money.clone());
        i += 1;
    }
    r
}

} // verus!
