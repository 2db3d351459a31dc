//! The data model: configurations, results and failures.
use vstd::prelude::*;

verus! {

/// The inference backend that serves a configuration.
#[derive(Clone, Copy, Debug, PartialEq, Eq, Structural)]
pub enum SmolVLMModel {
    Candle,
    Onnx,
}

/// A named model size tier.
#[derive(Clone, Copy, Debug, PartialEq, Eq, Structural)]
pub enum SmolVLMVariant {
    Tiny,
    Small,
    Medium,
}

/// One cell of the benchmark matrix: which backend, which variant, and
/// whether it runs on the CPU (`true`) or on the accelerator (`false`).
#[derive(Clone, Copy, Debug, PartialEq, Eq, Structural)]
pub struct BenchmarkConfiguration {
    pub backend: SmolVLMModel,
    pub variant: SmolVLMVariant,
    pub use_cpu: bool,
}

/// The three phases of one configuration's run, in the order they run.
#[derive(Clone, Copy, Debug, PartialEq, Eq, Structural)]
pub enum Phase {
    Load,
    Preprocess,
    Generate,
}

/// The phase of a run that failed, with the host's description of the cause.
#[derive(Clone, Debug)]
pub enum SmolVLMError {
    Load(String),
    Preprocess(String),
    Generate(String),
}

/// A configuration that could not be benchmarked, and why.
#[derive(Clone, Debug)]
pub struct BenchmarkFailure {
    pub config: BenchmarkConfiguration,
    pub error: SmolVLMError,
}

/// Timings of one successful run. Durations are in nanoseconds.
#[derive(Clone, Debug)]
pub struct BenchmarkResult {
    /// The backend used
    pub backend: SmolVLMModel,
    /// The model variant
    pub variant: SmolVLMVariant,
    /// Whether the CPU was used (true) or the accelerator (false)
    pub use_cpu: bool,
    /// Time taken to load the model
    pub load_time: u64,
    /// Time taken to preprocess the image
    pub process_time: u64,
    /// Time taken to generate text
    pub generate_time: u64,
    /// The generated text
    pub output: String,
}

/// The error of a failure in `phase`.
pub open spec fn phase_error(phase: Phase, cause: String) -> SmolVLMError {
    match phase {
        Phase::Load => SmolVLMError::Load(cause),
        Phase::Preprocess => SmolVLMError::Preprocess(cause),
        Phase::Generate => SmolVLMError::Generate(cause),
    }
}

/// What one attempted configuration produced.
pub type BenchmarkOutcome = Result<BenchmarkResult, BenchmarkFailure>;

impl BenchmarkResult {
    /// The configuration this result was measured for.
    pub open spec fn config(&self) -> BenchmarkConfiguration {
        BenchmarkConfiguration { backend: self.backend, variant: self.variant, use_cpu: self.use_cpu }
    }

    /// Load, preprocess and generate time together.
    pub open spec fn total_spec(&self) -> nat {
        (self.load_time + self.process_time + self.generate_time) as nat
    }

    /// The configuration this result was measured for.
    pub fn configuration(&self) -> (r: BenchmarkConfiguration)
        ensures
            r == self.config(),
    {
        BenchmarkConfiguration { backend: self.backend, variant: self.variant, use_cpu: self.use_cpu }
    }

    /// The total duration, recomputed from the three phases.
    pub fn total_time(&self) -> (r: u128)
        ensures
            r == self.load_time + self.process_time + self.generate_time,
    {
        self.load_time as u128 + self.process_time as u128 + self.generate_time as u128
    }
}

/// The configuration an outcome belongs to, whether it succeeded or not.
pub open spec fn outcome_config(o: BenchmarkOutcome) -> BenchmarkConfiguration {
    match o {
        Ok(r) => r.config(),
        Err(f) => f.config,
    }
}

} // verus!
