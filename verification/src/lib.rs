pub mod assoc;
pub mod balances;
pub mod contributions;
pub mod error;
pub mod group;
pub mod identity;
pub mod laws;
pub mod ledger;
pub mod lifecycle;
pub mod member;
pub mod repository;
pub mod soundness;
pub mod state;
pub mod store;
pub mod totals;
pub mod transaction;
