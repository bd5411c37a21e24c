//! Latency benchmark of an Electrum server: a timed, sequential sampling pass
//! over a list of inputs, and the text report of two such passes.

pub mod benchmark;
pub mod cli;
pub mod outcome;
pub mod report;
pub mod sampler;
pub mod text;
pub mod timing;
pub mod txid;
pub mod utils;

pub use benchmark::benchmark_address_utxos;
pub use benchmark::benchmark_transaction_fetch;
pub use benchmark::run_sample;
pub use cli::Args;
pub use outcome::FailureReason;
pub use outcome::SampleDetail;
pub use outcome::SampleOutcome;
pub use report::write_benchmark_results;
pub use report::BenchmarkReport;
pub use sampler::Notice;
pub use sampler::Sampler;
pub use sampler::SamplingRun;
pub use timing::Elapsed;
pub use utils::read_csv_values;
pub use utils::Record;
