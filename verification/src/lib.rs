//! Verified core of a local-first personal-finance tracker: balance-chain
//! arithmetic, cash-flow period statistics, bank-import rules, SQL filter
//! construction and the small decision procedures around sync and storage.
//! Money is held in integer cents throughout.
pub mod text;
pub mod ledger;
pub mod dates;
pub mod stats;
pub mod simplefin;
pub mod rules;
pub mod query;
pub mod deletion;
pub mod db;
pub mod sync;
pub mod storage;
pub mod paychecks;
pub mod models;
pub mod bridge;
pub mod matching;
