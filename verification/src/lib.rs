//! Community tierlists: reusable templates of rankable items, and the
//! rankings that users save against them.
//!
//! `state` holds the records and the rules that tie a ranking to its
//! template, `table` an ordered key-value table, `store` the catalogue of
//! templates and the rankings of each owner, `msg` the requests and their
//! answers, `error` the reasons for a refusal, and `contract` the operations
//! that a request resolves to.
pub mod contract;
pub mod error;
pub mod msg;
pub mod state;
pub mod store;
pub mod table;
