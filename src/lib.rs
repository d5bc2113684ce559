//! A personal-finance ledger model: typed records, a ledger store keyed by
//! id, transaction filters and budget aggregation.
pub mod date;
pub mod numeric;
pub mod codes;
pub mod transaction;
pub mod ledger;
pub mod pattern;
pub mod query;
pub mod budget;
pub mod config;
pub mod records;
