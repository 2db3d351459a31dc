use smolvlm_bench::compare::compare_backends;
use smolvlm_bench::report::{render_table, throughput_hundredths, throughput_pico, TABLE_RULE};
use std::time::Duration;
use smolvlm_bench::text::{push_cell, push_decimal, push_duration, push_hundredths};
use smolvlm_bench::{
    available_devices, benchmark_model, elapsed, phase_result, plan_configurations, run_benchmarks,
    BenchmarkConfiguration, BenchmarkFailure, BenchmarkHost, BenchmarkOutcome, BenchmarkResult,
    Phase, SmolVLMError, SmolVLMModel, SmolVLMVariant,
};

const LOAD_NS: u64 = 2_000_000;
const PROCESS_NS: u64 = 500_000;
const GENERATE_NS: u64 = 7_000_000;

struct MockHost {
    accelerator: bool,
    clock: u64,
    probes: usize,
    fail_load: Vec<(SmolVLMModel, SmolVLMVariant, bool)>,
    fail_process: bool,
    fail_generate: bool,
    loaded: Vec<(SmolVLMModel, SmolVLMVariant, bool)>,
}

impl MockHost {
    fn new(accelerator: bool) -> MockHost {
        MockHost {
            accelerator,
            clock: 1_000,
            probes: 0,
            fail_load: Vec::new(),
            fail_process: false,
            fail_generate: false,
            loaded: Vec::new(),
        }
    }
}

impl BenchmarkHost for MockHost {
    type Model = (SmolVLMModel, SmolVLMVariant);
    type Input = String;

    fn accelerator_available(&mut self) -> bool {
        self.probes += 1;
        self.accelerator
    }

    fn now_nanos(&mut self) -> u64 {
        self.clock
    }

    fn load_backend(
        &mut self,
        backend: SmolVLMModel,
        variant: SmolVLMVariant,
        use_cpu: bool,
        _model_path: &str,
    ) -> Result<Self::Model, String> {
        self.loaded.push((backend, variant, use_cpu));
        if self.fail_load.contains(&(backend, variant, use_cpu)) {
            return Err("weights missing".to_string());
        }
        self.clock += LOAD_NS;
        Ok((backend, variant))
    }

    fn process_image(&mut self, _model: &mut Self::Model, image_path: &str) -> Result<Self::Input, String> {
        if self.fail_process {
            return Err("bad image".to_string());
        }
        self.clock += PROCESS_NS;
        Ok(image_path.to_string())
    }

    fn generate(&mut self, model: &mut Self::Model, input: &Self::Input, prompt: &str) -> Result<String, String> {
        if self.fail_generate {
            return Err("out of memory".to_string());
        }
        self.clock += GENERATE_NS;
        Ok(format!("{:?}/{:?} saw {} and answered {}", model.0, model.1, input, prompt))
    }
}

fn config_of(o: &BenchmarkOutcome) -> BenchmarkConfiguration {
    match o {
        Ok(r) => r.configuration(),
        Err(f) => f.config,
    }
}

fn cfg(backend: SmolVLMModel, variant: SmolVLMVariant, use_cpu: bool) -> BenchmarkConfiguration {
    BenchmarkConfiguration { backend, variant, use_cpu }
}

fn sample(backend: SmolVLMModel, variant: SmolVLMVariant, use_cpu: bool, output: &str) -> BenchmarkResult {
    BenchmarkResult {
        backend,
        variant,
        use_cpu,
        load_time: LOAD_NS,
        process_time: PROCESS_NS,
        generate_time: GENERATE_NS,
        output: output.to_string(),
    }
}

fn run(host: &mut MockHost, b: &[SmolVLMModel], v: &[SmolVLMVariant], d: &[bool]) -> Vec<BenchmarkOutcome> {
    run_benchmarks(host, b, v, d, "models", "cat.png", "describe")
}

#[test]
fn two_backends_one_variant_cpu_only() {
    let mut host = MockHost::new(false);
    let out = run(&mut host, &[SmolVLMModel::Candle, SmolVLMModel::Onnx], &[SmolVLMVariant::Small], &[true]);
    assert_eq!(out.len(), 2);
    assert_eq!(config_of(&out[0]), cfg(SmolVLMModel::Candle, SmolVLMVariant::Small, true));
    assert_eq!(config_of(&out[1]), cfg(SmolVLMModel::Onnx, SmolVLMVariant::Small, true));
    assert!(out.iter().all(|o| o.is_ok()));
}

#[test]
fn unavailable_accelerator_entries_are_dropped() {
    let mut host = MockHost::new(false);
    let out = run(
        &mut host,
        &[SmolVLMModel::Candle, SmolVLMModel::Onnx],
        &[SmolVLMVariant::Tiny, SmolVLMVariant::Medium],
        &[true, false],
    );
    assert_eq!(out.len(), 4);
    assert!(out.iter().all(|o| o.is_ok()));
    assert!(out.iter().all(|o| config_of(o).use_cpu));
    assert!(host.loaded.iter().all(|l| l.2));
}

#[test]
fn full_matrix_in_cross_product_order() {
    let mut host = MockHost::new(true);
    let b = [SmolVLMModel::Candle, SmolVLMModel::Onnx];
    let v = [SmolVLMVariant::Tiny, SmolVLMVariant::Small, SmolVLMVariant::Medium];
    let d = [true, false];
    let out = run(&mut host, &b, &v, &d);
    assert_eq!(out.len(), 12);
    let mut idx = 0;
    for &bk in &b {
        for &vr in &v {
            for &dv in &d {
                assert_eq!(config_of(&out[idx]), cfg(bk, vr, dv));
                idx += 1;
            }
        }
    }
}

#[test]
fn accelerator_is_probed_once() {
    let mut host = MockHost::new(true);
    let out = run(
        &mut host,
        &[SmolVLMModel::Candle, SmolVLMModel::Onnx],
        &[SmolVLMVariant::Tiny, SmolVLMVariant::Small],
        &[false, true, false],
    );
    assert_eq!(out.len(), 12);
    assert_eq!(host.probes, 1);
}

#[test]
fn empty_lists_give_no_outcomes() {
    let mut host = MockHost::new(true);
    assert!(run(&mut host, &[], &[SmolVLMVariant::Tiny], &[true]).is_empty());
    assert!(run(&mut host, &[SmolVLMModel::Onnx], &[], &[true]).is_empty());
    assert!(run(&mut host, &[SmolVLMModel::Onnx], &[SmolVLMVariant::Tiny], &[]).is_empty());
    let mut host = MockHost::new(false);
    assert!(run(&mut host, &[SmolVLMModel::Onnx], &[SmolVLMVariant::Tiny], &[false, false]).is_empty());
    assert!(host.loaded.is_empty());
}

#[test]
fn dropped_accelerator_entries_match_a_cpu_only_run() {
    let b = [SmolVLMModel::Candle, SmolVLMModel::Onnx];
    let v = [SmolVLMVariant::Small];
    let mut first = MockHost::new(false);
    let with_accelerator = run(&mut first, &b, &v, &[true, false]);
    let mut second = MockHost::new(false);
    let cpu_only = run(&mut second, &b, &v, &[true]);
    assert_eq!(with_accelerator.len(), cpu_only.len());
    for (x, y) in with_accelerator.iter().zip(cpu_only.iter()) {
        let (x, y) = (x.as_ref().unwrap(), y.as_ref().unwrap());
        assert_eq!(x.configuration(), y.configuration());
        assert_eq!(x.output, y.output);
        assert_eq!(x.total_time(), y.total_time());
    }
    assert_eq!(first.loaded, second.loaded);
}

#[test]
fn failed_load_does_not_stop_the_run() {
    let mut host = MockHost::new(false);
    host.fail_load.push((SmolVLMModel::Candle, SmolVLMVariant::Small, true));
    let out = run(&mut host, &[SmolVLMModel::Candle, SmolVLMModel::Onnx], &[SmolVLMVariant::Small], &[true]);
    assert_eq!(out.len(), 2);
    match &out[0] {
        Err(BenchmarkFailure { config, error: SmolVLMError::Load(m) }) => {
            assert_eq!(*config, cfg(SmolVLMModel::Candle, SmolVLMVariant::Small, true));
            assert_eq!(m, "weights missing");
        }
        _ => panic!("expected a load failure"),
    }
    match &out[1] {
        Ok(r) => {
            assert_eq!(r.configuration(), cfg(SmolVLMModel::Onnx, SmolVLMVariant::Small, true));
            assert_eq!(r.load_time, LOAD_NS);
            assert_eq!(r.process_time, PROCESS_NS);
            assert_eq!(r.generate_time, GENERATE_NS);
            assert_eq!(r.output, "Onnx/Small saw cat.png and answered describe");
        }
        Err(_) => panic!("expected a success"),
    }
}

#[test]
fn preprocess_failure_is_reported() {
    let mut host = MockHost::new(false);
    host.fail_process = true;
    let c = cfg(SmolVLMModel::Onnx, SmolVLMVariant::Tiny, true);
    match benchmark_model(&mut host, c, "models", "broken.png", "describe") {
        Err(BenchmarkFailure { config, error: SmolVLMError::Preprocess(m) }) => {
            assert_eq!(config, c);
            assert_eq!(m, "bad image");
        }
        _ => panic!("expected a preprocessing failure"),
    }
}

#[test]
fn generation_failure_is_reported() {
    let mut host = MockHost::new(false);
    host.fail_generate = true;
    let c = cfg(SmolVLMModel::Candle, SmolVLMVariant::Medium, false);
    match benchmark_model(&mut host, c, "models", "cat.png", "describe") {
        Err(BenchmarkFailure { config, error: SmolVLMError::Generate(m) }) => {
            assert_eq!(config, c);
            assert_eq!(m, "out of memory");
        }
        _ => panic!("expected a generation failure"),
    }
}

#[test]
fn total_is_sum_of_phases() {
    let r = sample(SmolVLMModel::Candle, SmolVLMVariant::Small, true, "x");
    assert_eq!(r.total_time(), 9_500_000);
    let big = BenchmarkResult {
        load_time: u64::MAX,
        process_time: u64::MAX,
        generate_time: 1,
        ..r
    };
    assert_eq!(big.total_time(), 2 * (u64::MAX as u128) + 1);
}

#[test]
fn throughput_from_preprocessing_time() {
    let mut r = sample(SmolVLMModel::Candle, SmolVLMVariant::Small, true, "x");
    assert_eq!(throughput_hundredths(&r), 200_000);
    r.process_time = 0;
    assert_eq!(throughput_hundredths(&r), 0);
    r.process_time = 1_000_000_000;
    assert_eq!(throughput_hundredths(&r), 100);
    r.process_time = 3_000_000_000;
    assert_eq!(throughput_hundredths(&r), 33);
    r.process_time = 700_000_000;
    assert_eq!(throughput_hundredths(&r), 143);
    r.process_time = 1;
    assert_eq!(throughput_hundredths(&r), 100_000_000_000);
}

#[test]
fn throughput_is_zero_only_for_zero_time() {
    let mut r = sample(SmolVLMModel::Onnx, SmolVLMVariant::Tiny, true, "x");
    assert_eq!(throughput_pico(&r), 2_000_000_000_000_000);
    r.process_time = 0;
    assert_eq!(throughput_pico(&r), 0);
    r.process_time = 1_000_000_000;
    assert_eq!(throughput_pico(&r), 1_000_000_000_000);
    r.process_time = u64::MAX;
    assert_eq!(throughput_pico(&r), 54);
}

#[test]
fn error_cause_stays_on_one_line() {
    let failed = BenchmarkFailure {
        config: cfg(SmolVLMModel::Onnx, SmolVLMVariant::Small, false),
        error: SmolVLMError::Generate("out of\nmemory\r\nnow".to_string()),
    };
    let table = render_table(&[Err(failed)]);
    assert!(table.ends_with("Error: Onnx Small GPU: generation failed: out of memory  now\n"));
    assert_eq!(table.lines().count(), 3);
}

#[test]
fn clock_going_backwards_gives_zero() {
    assert_eq!(elapsed(10, 25), 15);
    assert_eq!(elapsed(25, 10), 0);
    assert_eq!(elapsed(7, 7), 0);
}

#[test]
fn result_to_string() {
    let r = sample(SmolVLMModel::Candle, SmolVLMVariant::Small, true, "a cat");
    assert_eq!(
        r.to_string(),
        "Backend: Candle, Variant: Small, Device: CPU\nLoad time: 2ms\nProcess time: 500µs\n\
         Generate time: 7ms\nTotal time: 9.5ms\nOutput: a cat"
    );
}

#[test]
fn table_has_one_line_per_outcome() {
    let ok = sample(SmolVLMModel::Onnx, SmolVLMVariant::Medium, false, "x");
    let failed = BenchmarkFailure {
        config: cfg(SmolVLMModel::Candle, SmolVLMVariant::Tiny, true),
        error: SmolVLMError::Load("weights missing".to_string()),
    };
    let table = render_table(&[Ok(ok), Err(failed)]);
    let header = format!(
        "{:<10} {:<8} {:<6} {:<15} {:<15} {:<15} {:<15}\n",
        "Backend", "Variant", "Device", "Load Time", "Process Time", "Generate Time", "Total Time"
    );
    let row = format!(
        "{:<10} {:<8} {:<6} {:<15?} {:<15?} {:<15?} {:<15?}\n",
        "Onnx",
        "Medium",
        "GPU",
        Duration::from_nanos(LOAD_NS),
        Duration::from_nanos(PROCESS_NS),
        Duration::from_nanos(GENERATE_NS),
        Duration::from_nanos(LOAD_NS + PROCESS_NS + GENERATE_NS)
    );
    let error = "Error: Candle Tiny CPU: load failed: weights missing\n";
    assert_eq!(table, format!("{}{}{}{}", header, TABLE_RULE, row, error));
    assert_eq!(TABLE_RULE.len(), 91);
}

#[test]
fn empty_table_is_header_only() {
    let table = render_table(&[]);
    assert_eq!(table.lines().count(), 2);
    assert!(table.starts_with("Backend    Variant  Device Load Time"));
}

#[test]
fn comparison_keeps_groups_of_two_or_more() {
    let results: Vec<BenchmarkOutcome> = vec![
        Ok(sample(SmolVLMModel::Candle, SmolVLMVariant::Small, true, "a cat")),
        Ok(sample(SmolVLMModel::Candle, SmolVLMVariant::Tiny, true, "lonely")),
        Err(BenchmarkFailure {
            config: cfg(SmolVLMModel::Onnx, SmolVLMVariant::Tiny, true),
            error: SmolVLMError::Load("weights missing".to_string()),
        }),
        Ok(sample(SmolVLMModel::Onnx, SmolVLMVariant::Small, true, "a dog")),
    ];
    let expected = "\n=== Small on CPU ===\n\
        Candle - Process: 500µs, Generate: 7ms, Total: 9.5ms, FPS: 2000.00\n\
        Onnx - Process: 500µs, Generate: 7ms, Total: 9.5ms, FPS: 2000.00\n\
        \nOutputs:\nCandle: a cat\nOnnx: a dog\n";
    assert_eq!(compare_backends(&results), expected);
}

#[test]
fn comparison_separates_devices_and_handles_any_variant() {
    let results: Vec<BenchmarkOutcome> = vec![
        Ok(sample(SmolVLMModel::Onnx, SmolVLMVariant::Medium, false, "g1")),
        Ok(sample(SmolVLMModel::Onnx, SmolVLMVariant::Medium, true, "c1")),
        Ok(sample(SmolVLMModel::Candle, SmolVLMVariant::Medium, true, "c2")),
        Ok(sample(SmolVLMModel::Candle, SmolVLMVariant::Medium, false, "g2")),
    ];
    let text = compare_backends(&results);
    let gpu = text.find("=== Medium on GPU ===").unwrap();
    let cpu = text.find("=== Medium on CPU ===").unwrap();
    assert!(gpu < cpu);
    assert!(text.contains("Onnx: g1\nCandle: g2\n"));
    assert!(text.contains("Onnx: c1\nCandle: c2\n"));
}

#[test]
fn comparison_of_singletons_is_empty() {
    let results: Vec<BenchmarkOutcome> = vec![
        Ok(sample(SmolVLMModel::Onnx, SmolVLMVariant::Tiny, true, "a")),
        Ok(sample(SmolVLMModel::Onnx, SmolVLMVariant::Small, true, "b")),
        Ok(sample(SmolVLMModel::Onnx, SmolVLMVariant::Small, false, "c")),
    ];
    assert_eq!(compare_backends(&results), "");
    assert_eq!(compare_backends(&[]), "");
}

#[test]
fn planning_filters_devices() {
    assert_eq!(available_devices(&[true, false, true], false), vec![true, true]);
    assert_eq!(available_devices(&[true, false, true], true), vec![true, false, true]);
    let plan = plan_configurations(
        &[SmolVLMModel::Onnx],
        &[SmolVLMVariant::Tiny, SmolVLMVariant::Small],
        &[false, true],
        false,
    );
    assert_eq!(
        plan,
        vec![cfg(SmolVLMModel::Onnx, SmolVLMVariant::Tiny, true), cfg(SmolVLMModel::Onnx, SmolVLMVariant::Small, true)]
    );
}

#[test]
fn number_and_duration_text() {
    let mut s = String::new();
    push_decimal(&mut s, 0);
    s.push(' ');
    push_decimal(&mut s, 1234567890);
    s.push(' ');
    push_duration(&mut s, 12_345_678);
    s.push(' ');
    push_duration(&mut s, 999);
    s.push(' ');
    push_duration(&mut s, 1_250_000_000);
    s.push(' ');
    push_hundredths(&mut s, 5);
    s.push(' ');
    push_cell(&mut s, "ab", 4);
    push_cell(&mut s, "abcdef", 4);
    assert_eq!(s, "0 1234567890 12.345678ms 999ns 1.25s 0.05 ab  abcdef");
}

#[test]
fn phase_result_maps_each_phase() {
    let c = cfg(SmolVLMModel::Onnx, SmolVLMVariant::Small, false);
    assert_eq!(phase_result(c, Phase::Generate, Ok::<u32, String>(7)).unwrap(), 7);
    let cases = [Phase::Load, Phase::Preprocess, Phase::Generate];
    for phase in cases {
        let f = phase_result(c, phase, Err::<u32, String>("boom".to_string())).unwrap_err();
        assert_eq!(f.config, c);
        match (phase, f.error) {
            (Phase::Load, SmolVLMError::Load(m))
            | (Phase::Preprocess, SmolVLMError::Preprocess(m))
            | (Phase::Generate, SmolVLMError::Generate(m)) => assert_eq!(m, "boom"),
            _ => panic!("error of the wrong phase"),
        }
    }
}
