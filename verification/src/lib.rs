//! Verified core of a blockchain transaction-count scanner.
//!
//! A contiguous range of block heights is queried for per-block transaction
//! counts, either sequentially over one gateway connection or split among
//! `n` shard workers by striping (`height % n`). Partial results are then
//! aggregated into one total, with the first error propagated.

pub mod aggregate;
pub mod errors;
pub mod gateway;
pub mod laws;
pub mod orchestrate;
pub mod partition;
pub mod range;
pub mod scan;
pub mod worker;

pub use aggregate::reduce;
pub use errors::ScanError;
pub use gateway::Gateway;
pub use gateway::MockGateway;
pub use orchestrate::count_total_transactions;
pub use orchestrate::parallel_count_total_transactions;
pub use orchestrate::run_all_shards;
pub use partition::assign;
pub use range::HeightRange;
pub use worker::run_shard;
pub use worker::PartialResult;
