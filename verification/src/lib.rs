//! Per-block filtering of Solana transactions by the program their
//! instructions invoke, and projection of the result into entity rows.
//!
//! `extract` selects and re-encodes, `block_meta` summarizes a block, and
//! `project` turns either result into rows of the entity-change builder.

pub mod base58;
pub mod block_meta;
pub mod decimal;
pub mod error;
pub mod extract;
pub mod filter;
pub mod json;
pub mod ledger;
pub mod output;
pub mod project;
pub mod scan;
pub mod tables;

pub use block_meta::map_block_meta;
pub use error::IntegrityFault;
pub use error::TransformError;
pub use extract::map_filter_transactions;
pub use filter::apply_filter;
pub use filter::InstructionFilterParams;
pub use project::graph_out;
pub use project::graph_transactions_out;
