//! A tamper-evident reputation ledger: rating entries issued by providers,
//! scoped to an authorization space, chained through credit and debit records.
pub mod encoding;
pub mod types;
pub mod ledger;
pub mod lifecycle;
pub mod laws;
