//! A registry of worker micro-credentials that employers verify by staking.
pub mod types;
pub mod records;
pub mod keyed;
pub mod ledger;
pub mod contract;
pub mod laws;
pub mod request_laws;
