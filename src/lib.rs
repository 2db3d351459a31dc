//! Multi-configuration benchmarking of vision-language model backends.
//!
//! The library expands a matrix of (backend, variant, device) configurations,
//! runs each one through a host that loads, preprocesses and generates, and
//! renders timing tables and cross-backend comparisons.
pub mod types;
pub mod text;
pub mod plan;
pub mod run;
pub mod report;
pub mod compare;

pub use compare::compare_backends;
pub use plan::{available_devices, plan_configurations};
pub use report::{render_table, throughput_hundredths, throughput_pico};
pub use run::{benchmark_model, elapsed, phase_result, run_benchmarks, run_configurations, BenchmarkHost};
pub use types::{
    BenchmarkConfiguration, BenchmarkFailure, BenchmarkOutcome, BenchmarkResult, Phase, SmolVLMError,
    SmolVLMModel, SmolVLMVariant,
};
