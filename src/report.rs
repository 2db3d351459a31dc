//! Text reports over benchmark outcomes: one result, the timing table, and
//! the side-by-side comparison of backends.
use vstd::prelude::*;
use crate::text::{duration_text, one_line, padded, push_cell, push_duration, push_one_line};
use crate::types::{
    BenchmarkFailure, BenchmarkOutcome, BenchmarkResult, SmolVLMError, SmolVLMModel, SmolVLMVariant,
};

verus! {

pub open spec fn backend_name(b: SmolVLMModel) -> Seq<char> {
    match b {
        SmolVLMModel::Candle => "Candle"@,
        SmolVLMModel::Onnx => "Onnx"@,
    }
}

pub open spec fn variant_name(v: SmolVLMVariant) -> Seq<char> {
    match v {
        SmolVLMVariant::Tiny => "Tiny"@,
        SmolVLMVariant::Small => "Small"@,
        SmolVLMVariant::Medium => "Medium"@,
    }
}

pub open spec fn device_name(use_cpu: bool) -> Seq<char> {
    if use_cpu { "CPU"@ } else { "GPU"@ }
}

/// The label of a backend.
pub fn backend_label(b: SmolVLMModel) -> (r: &'static str)
    ensures
        r@ == backend_name(b),
{
    match b {
        SmolVLMModel::Candle => "Candle",
        SmolVLMModel::Onnx => "Onnx",
    }
}

/// The label of a model variant.
pub fn variant_label(v: SmolVLMVariant) -> (r: &'static str)
    ensures
        r@ == variant_name(v),
{
    match v {
        SmolVLMVariant::Tiny => "Tiny",
        SmolVLMVariant::Small => "Small",
        SmolVLMVariant::Medium => "Medium",
    }
}

/// The label of a device preference.
pub fn device_label(use_cpu: bool) -> (r: &'static str)
    ensures
        r@ == device_name(use_cpu),
{
    if use_cpu {
        "CPU"
    } else {
        "GPU"
    }
}

/// Images per second in hundredths, from the preprocessing time alone:
/// `100 / seconds` rounded to the nearest (halves up), and zero for a zero
/// duration.
pub open spec fn throughput_spec(process_nanos: nat) -> nat {
    if process_nanos == 0 {
        0
    } else {
        (200_000_000_000nat + process_nanos) / (2 * process_nanos)
    }
}

/// Images per second in millionths of millionths, from the preprocessing
/// time alone: `10^12 / seconds` rounded down, and zero for a zero
/// duration.
pub open spec fn throughput_pico_spec(process_nanos: nat) -> nat {
    if process_nanos == 0 {
        0
    } else {
        1_000_000_000_000_000_000_000nat / process_nanos
    }
}

/// The multi-line description of one result.
pub open spec fn result_text(r: BenchmarkResult) -> Seq<char> {
    "Backend: "@ + backend_name(r.backend) + ", Variant: "@ + variant_name(r.variant)
        + ", Device: "@ + device_name(r.use_cpu) + "\nLoad time: "@ + duration_text(
        r.load_time as nat,
    ) + "\nProcess time: "@ + duration_text(r.process_time as nat) + "\nGenerate time: "@
        + duration_text(r.generate_time as nat) + "\nTotal time: "@ + duration_text(r.total_spec())
        + "\nOutput: "@ + r.output@
}

impl BenchmarkResult {
    /// Formats the result: its configuration, the three phase durations,
    /// their total and the generated text.
    pub fn to_string(&self) -> (r: String)
        ensures
            r@ == result_text(*self),
    {
        let mut s = String::new();
        s.append("Backend: ");
        s.append(backend_label(self.backend));
        s.append(", Variant: ");
        s.append(variant_label(self.variant));
        s.append(", Device: ");
        s.append(device_label(self.use_cpu));
        s.append("\nLoad time: ");
        push_duration(&mut s, self.load_time as u128);
        s.append("\nProcess time: ");
        push_duration(&mut s, self.process_time as u128);
        s.append("\nGenerate time: ");
        push_duration(&mut s, self.generate_time as u128);
        s.append("\nTotal time: ");
        push_duration(&mut s, self.total_time());
        s.append("\nOutput: ");
        s.append(self.output.as_str());
        assert(s@ =~= result_text(*self));
        s
    }
}

/// Images per second of one result, in hundredths rounded to the nearest,
/// derived from its preprocessing time only; zero when that time is zero.
pub fn throughput_hundredths(result: &BenchmarkResult) -> (r: u64)
    ensures
        r == throughput_spec(result.process_time as nat),
{
    if result.process_time == 0 {
        0
    } else {
        let n = result.process_time as u128;
        let q = (200_000_000_000u128 + n) / (2 * n);
        assert(q <= 200_000_000_000) by (nonlinear_arith)
            requires q == (200_000_000_000u128 + n) / (2 * n), n >= 1;
        q as u64
    }
}

/// The throughput of one result, images per second in units of 10^-12
/// (`10^12 / seconds`, rounded down), derived from its preprocessing time
/// only. It is zero exactly when that time is zero: the slowest measurable
/// time still gives a positive rate.
pub fn throughput_pico(result: &BenchmarkResult) -> (r: u128)
    ensures
        r == throughput_pico_spec(result.process_time as nat),
        r == 0 <==> result.process_time == 0,
{
    if result.process_time == 0 {
        0
    } else {
        let n = result.process_time as u128;
        let q = 1_000_000_000_000_000_000_000u128 / n;
        assert(q >= 1) by (nonlinear_arith)
            requires q == 1_000_000_000_000_000_000_000u128 / n, 1 <= n <= 0xFFFF_FFFF_FFFF_FFFFu128;
        q
    }
}

/// One table line: seven cells padded to their column widths, separated by
/// single spaces.
pub open spec fn table_row(
    c0: Seq<char>,
    c1: Seq<char>,
    c2: Seq<char>,
    c3: Seq<char>,
    c4: Seq<char>,
    c5: Seq<char>,
    c6: Seq<char>,
) -> Seq<char> {
    padded(c0, 10) + " "@ + padded(c1, 8) + " "@ + padded(c2, 6) + " "@ + padded(c3, 15) + " "@
        + padded(c4, 15) + " "@ + padded(c5, 15) + " "@ + padded(c6, 15) + "\n"@
}

pub open spec fn error_text(e: SmolVLMError) -> Seq<char> {
    match e {
        SmolVLMError::Load(m) => "load failed: "@ + one_line(m@),
        SmolVLMError::Preprocess(m) => "preprocessing failed: "@ + one_line(m@),
        SmolVLMError::Generate(m) => "generation failed: "@ + one_line(m@),
    }
}

/// The line that stands for a failed configuration: a single line, with
/// line breaks in the cause replaced by spaces.
pub open spec fn failure_line(f: BenchmarkFailure) -> Seq<char> {
    "Error: "@ + backend_name(f.config.backend) + " "@ + variant_name(f.config.variant) + " "@
        + device_name(f.config.use_cpu) + ": "@ + error_text(f.error) + "\n"@
}

/// The table line of one outcome.
pub open spec fn outcome_line(o: BenchmarkOutcome) -> Seq<char> {
    match o {
        Ok(r) => table_row(
            backend_name(r.backend),
            variant_name(r.variant),
            device_name(r.use_cpu),
            duration_text(r.load_time as nat),
            duration_text(r.process_time as nat),
            duration_text(r.generate_time as nat),
            duration_text(r.total_spec()),
        ),
        Err(f) => failure_line(f),
    }
}

pub open spec fn outcome_lines(outs: Seq<BenchmarkOutcome>) -> Seq<char>
    decreases outs.len(),
{
    if outs.len() == 0 {
        Seq::empty()
    } else {
        outcome_lines(outs.drop_last()) + outcome_line(outs.last())
    }
}

/// The rule under the table's header.
pub const TABLE_RULE: &'static str = "------------------------------------------------------------------------------------------\n";

/// The whole table: header, rule, and one line per outcome in order.
pub open spec fn table_text(outs: Seq<BenchmarkOutcome>) -> Seq<char> {
    table_row(
        "Backend"@,
        "Variant"@,
        "Device"@,
        "Load Time"@,
        "Process Time"@,
        "Generate Time"@,
        "Total Time"@,
    ) + TABLE_RULE@ + outcome_lines(outs)
}

#[verifier::rlimit(40)]
fn push_row(s: &mut String, c0: &str, c1: &str, c2: &str, c3: &str, c4: &str, c5: &str, c6: &str)
    ensures
        final(s)@ == old(s)@ + table_row(c0@, c1@, c2@, c3@, c4@, c5@, c6@),
{
    push_cell(s, c0, 10);
    s.append(" ");
    push_cell(s, c1, 8);
    s.append(" ");
    push_cell(s, c2, 6);
    s.append(" ");
    push_cell(s, c3, 15);
    s.append(" ");
    push_cell(s, c4, 15);
    s.append(" ");
    push_cell(s, c5, 15);
    s.append(" ");
    push_cell(s, c6, 15);
    s.append("\n");
    assert(final(s)@ =~= old(s)@ + table_row(c0@, c1@, c2@, c3@, c4@, c5@, c6@));
}

fn duration_string(nanos: u128) -> (r: String)
    requires
        nanos / 1_000_000_000 <= u64::MAX,
    ensures
        r@ == duration_text(nanos as nat),
{
    let mut d = String::new();
    push_duration(&mut d, nanos);
    assert(d@ =~= duration_text(nanos as nat));
    d
}

fn push_result_row(s: &mut String, r: &BenchmarkResult)
    ensures
        final(s)@ == old(s)@ + outcome_line(Ok(*r)),
{
    let load = duration_string(r.load_time as u128);
    let process = duration_string(r.process_time as u128);
    let generate = duration_string(r.generate_time as u128);
    let total = duration_string(r.total_time());
    push_row(
        s,
        backend_label(r.backend),
        variant_label(r.variant),
        device_label(r.use_cpu),
        load.as_str(),
        process.as_str(),
        generate.as_str(),
        total.as_str(),
    );
}

fn push_error(s: &mut String, e: &SmolVLMError)
    ensures
        final(s)@ == old(s)@ + error_text(*e),
{
    match e {
        SmolVLMError::Load(m) => {
            s.append("load failed: ");
            push_one_line(s, m.as_str());
        },
        SmolVLMError::Preprocess(m) => {
            s.append("preprocessing failed: ");
            push_one_line(s, m.as_str());
        },
        SmolVLMError::Generate(m) => {
            s.append("generation failed: ");
            push_one_line(s, m.as_str());
        },
    }
    assert(final(s)@ =~= old(s)@ + error_text(*e));
}

fn push_failure_line(s: &mut String, f: &BenchmarkFailure)
    ensures
        final(s)@ == old(s)@ + failure_line(*f),
{
    s.append("Error: ");
    s.append(backend_label(f.config.backend));
    s.append(" ");
    s.append(variant_label(f.config.variant));
    s.append(" ");
    s.append(device_label(f.config.use_cpu));
    s.append(": ");
    push_error(s, &f.error);
    s.append("\n");
    assert(final(s)@ =~= old(s)@ + failure_line(*f));
}

fn push_outcome_line(s: &mut String, o: &BenchmarkOutcome)
    ensures
        final(s)@ == old(s)@ + outcome_line(*o),
{
    match o {
        Ok(r) => push_result_row(s, r),
        Err(f) => push_failure_line(s, f),
    }
}

/// Renders outcomes as a table: a header, a rule, then one line per outcome
/// in order. A failed configuration gets a single error line in place of
/// its timings.
pub fn render_table(results: &[BenchmarkOutcome]) -> (r: String)
    ensures
        r@ == table_text(results@),
{
    let mut s = String::new();
    push_row(
        &mut s,
        "Backend",
        "Variant",
        "Device",
        "Load Time",
        "Process Time",
        "Generate Time",
        "Total Time",
    );
    s.append(TABLE_RULE);
    let ghost head = s@;
    let mut i: usize = 0;
    while i < results.len()
        invariant
            i <= results@.len(),
            s@ == head + outcome_lines(results@.take(i as int)),
        decreases results@.len() - i,
    {
        push_outcome_line(&mut s, &results[i]);
        i = i + 1;
        assert(results@.take(i as int).drop_last() =~= results@.take(i - 1 as int));
        assert(s@ =~= head + outcome_lines(results@.take(i as int)));
    }
    assert(results@.take(i as int) =~= results@);
    s
}

} // verus!
