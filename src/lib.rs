//! Release-note generation: classification, aggregation and rendering of
//! closed tickets and pull requests, with the pagination and statistics
//! logic that feeds them.

pub mod config;
pub mod errors;
pub mod extract;
pub mod ordering;
pub mod stats;
pub mod pull_list;
pub mod text;
pub mod zoho_bugs;
