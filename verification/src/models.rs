//! Plain records of the data model that the commands read and write.
use vstd::prelude::*;

verus! {

/// An account (checking, brokerage, credit card, …).
pub struct Account {
    pub id: i32,
    pub name: String,
    pub account_type: String,
    pub institution: Option<String>,
    pub is_active: bool,
    pub include_in_fire_calculations: bool,
    pub created_at: String,
}

/// A new account as the user submits it.
pub struct NewAccount {
    pub name: String,
    pub account_type: String,
    pub institution: Option<String>,
    pub include_in_fire_calculations: bool,
    pub created_at: String,
}

/// A saved CSV column mapping (its configuration is opaque JSON text).
pub struct ImportMapping {
    pub id: i32,
    pub name: String,
    pub config: String,
    pub created_at: String,
}

/// A new CSV column mapping.
pub struct NewImportMapping {
    pub name: String,
    pub config: String,
    pub created_at: String,
}

/// A calendar month that has transactions.
#[derive(Clone, Copy, PartialEq, Eq, Structural)]
pub struct BudgetMonth {
    pub year: i32,
    pub month: i32,
}

} // verus!
