//! Running configurations against a host that loads models, preprocesses
//! images and generates text.
use vstd::prelude::*;
use crate::plan::{
    configuration, kept_devices, lemma_plan_shape, lemma_plan_without_accelerator, plan,
    plan_configurations,
};
use crate::types::{
    outcome_config, phase_error, BenchmarkConfiguration, BenchmarkFailure, BenchmarkOutcome, BenchmarkResult,
    Phase, SmolVLMError, SmolVLMModel, SmolVLMVariant,
};

verus! {

/// One call that a host answered, with its answer.
pub enum HostEvent {
    /// The accelerator probe.
    Probe { available: bool },
    /// A clock reading.
    Clock { reading: u64 },
    /// A model load, with the cause when it failed.
    Load { config: BenchmarkConfiguration, model_path: Seq<char>, failure: Option<Seq<char>> },
    /// An image preprocessing, with the cause when it failed.
    Process { image_path: Seq<char>, failure: Option<Seq<char>> },
    /// A text generation, with the text or the cause of its failure.
    Generate { prompt: Seq<char>, answer: Result<Seq<char>, Seq<char>> },
}

pub open spec fn failure_of<T>(r: Result<T, String>) -> Option<Seq<char>> {
    match r {
        Ok(_) => None,
        Err(e) => Some(e@),
    }
}

pub open spec fn text_answer(r: Result<String, String>) -> Result<Seq<char>, Seq<char>> {
    match r {
        Ok(t) => Ok(t@),
        Err(e) => Err(e@),
    }
}

/// What a benchmark run needs from its surroundings: a model backend, a
/// probe for an accelerator and a monotonic clock. The host decides every
/// answer; each call is recorded in `events`, with the arguments that
/// matter to a run and the answer given.
pub trait BenchmarkHost {
    /// A loaded model, owned by one configuration's run.
    type Model;
    /// An image in the form the loaded model expects.
    type Input;

    /// The calls answered so far, oldest first. A verified host defines it;
    /// the default records nothing.
    closed spec fn events(&self) -> Seq<HostEvent> {
        Seq::empty()
    }

    /// Whether an accelerator can be used. A probe that fails reports `false`.
    fn accelerator_available(&mut self) -> (r: bool)
        ensures
            final(self).events() == old(self).events().push(HostEvent::Probe { available: r }),
    ;

    /// The reading of a monotonic clock, in nanoseconds.
    fn now_nanos(&mut self) -> (r: u64)
        ensures
            final(self).events() == old(self).events().push(HostEvent::Clock { reading: r }),
    ;

    /// Loads `variant` of `backend` from `model_path` for the given device.
    fn load_backend(
        &mut self,
        backend: SmolVLMModel,
        variant: SmolVLMVariant,
        use_cpu: bool,
        model_path: &str,
    ) -> (r: Result<Self::Model, String>)
        ensures
            final(self).events() == old(self).events().push(
                HostEvent::Load {
                    config: configuration(backend, variant, use_cpu),
                    model_path: model_path@,
                    failure: failure_of(r),
                },
            ),
    ;

    /// Reads the image at `image_path` into the model's input form.
    fn process_image(&mut self, model: &mut Self::Model, image_path: &str) -> (r: Result<Self::Input, String>)
        ensures
            final(self).events() == old(self).events().push(
                HostEvent::Process { image_path: image_path@, failure: failure_of(r) },
            ),
    ;

    /// Generates text for the prepared image and the prompt.
    fn generate(&mut self, model: &mut Self::Model, input: &Self::Input, prompt: &str) -> (r: Result<String, String>)
        ensures
            final(self).events() == old(self).events().push(
                HostEvent::Generate { prompt: prompt@, answer: text_answer(r) },
            ),
    ;
}

pub open spec fn elapsed_spec(start: u64, end: u64) -> u64 {
    if end >= start { (end - start) as u64 } else { 0 }
}

/// The time between two clock readings; a clock that went backwards gives
/// zero.
pub fn elapsed(start: u64, end: u64) -> (r: u64)
    ensures
        r == elapsed_spec(start, end),
{
    if end >= start {
        end - start
    } else {
        0
    }
}

pub open spec fn is_clock(e: HostEvent) -> bool {
    e is Clock
}

pub open spec fn reading(e: HostEvent) -> u64 {
    match e {
        HostEvent::Clock { reading } => reading,
        _ => 0,
    }
}

/// The phase and the cause of an error.
pub open spec fn error_view(e: SmolVLMError) -> (Phase, Seq<char>) {
    match e {
        SmolVLMError::Load(m) => (Phase::Load, m@),
        SmolVLMError::Preprocess(m) => (Phase::Preprocess, m@),
        SmolVLMError::Generate(m) => (Phase::Generate, m@),
    }
}

/// `r` is the failure of `config` in `phase`, for `cause`.
pub open spec fn failed_with(r: BenchmarkOutcome, config: BenchmarkConfiguration, phase: Phase, cause: Seq<char>) -> bool {
    match r {
        Ok(_) => false,
        Err(f) => f.config == config && error_view(f.error) == (phase, cause),
    }
}

/// `r` is the result of `config` with these phase times and this text.
pub open spec fn succeeded_with(
    r: BenchmarkOutcome,
    config: BenchmarkConfiguration,
    load_time: u64,
    process_time: u64,
    generate_time: u64,
    text: Seq<char>,
) -> bool {
    match r {
        Ok(res) => res.config() == config && res.load_time == load_time && res.process_time == process_time
            && res.generate_time == generate_time && res.output@ == text,
        Err(_) => false,
    }
}

/// `ev` is what a host saw during one run of `config`, and `r` is what that
/// run produced. The run goes through loading, preprocessing and
/// generating, each phase between two clock readings, and stops at the
/// first phase that fails, with that phase's failure; after three
/// successes it has the three measured times and the generated text.
pub open spec fn run_log(
    config: BenchmarkConfiguration,
    model_path: Seq<char>,
    image_path: Seq<char>,
    prompt: Seq<char>,
    ev: Seq<HostEvent>,
    r: BenchmarkOutcome,
) -> bool {
    ev.len() >= 2 && is_clock(ev[0]) && match ev[1] {
        HostEvent::Load { config: c, model_path: m, failure: Some(cause) } => c == config && m == model_path
            && ev.len() == 2 && failed_with(r, config, Phase::Load, cause),
        HostEvent::Load { config: c, model_path: m, failure: None } => c == config && m == model_path
            && ev.len() >= 5 && is_clock(ev[2]) && is_clock(ev[3]) && match ev[4] {
            HostEvent::Process { image_path: i, failure: Some(cause) } => i == image_path && ev.len() == 5
                && failed_with(r, config, Phase::Preprocess, cause),
            HostEvent::Process { image_path: i, failure: None } => i == image_path && ev.len() >= 8
                && is_clock(ev[5]) && is_clock(ev[6]) && match ev[7] {
                HostEvent::Generate { prompt: q, answer: Err(cause) } => q == prompt && ev.len() == 8
                    && failed_with(r, config, Phase::Generate, cause),
                HostEvent::Generate { prompt: q, answer: Ok(text) } => q == prompt && ev.len() == 9
                    && is_clock(ev[8]) && succeeded_with(
                    r,
                    config,
                    elapsed_spec(reading(ev[0]), reading(ev[2])),
                    elapsed_spec(reading(ev[3]), reading(ev[5])),
                    elapsed_spec(reading(ev[6]), reading(ev[8])),
                    text,
                ),
                _ => false,
            },
            _ => false,
        },
        _ => false,
    }
}

/// The configurations handed to `load_backend`, in order.
pub open spec fn loads(ev: Seq<HostEvent>) -> Seq<BenchmarkConfiguration>
    decreases ev.len(),
{
    if ev.len() == 0 {
        Seq::empty()
    } else {
        loads(ev.drop_last()) + match ev.last() {
            HostEvent::Load { config, .. } => seq![config],
            _ => Seq::empty(),
        }
    }
}

/// What the host returned for one phase: its value, or the failure of the
/// whole configuration at that phase.
pub fn phase_result<T>(config: BenchmarkConfiguration, phase: Phase, r: Result<T, String>) -> (out: Result<
    T,
    BenchmarkFailure,
>)
    ensures
        match r {
            Ok(v) => out == Ok::<T, BenchmarkFailure>(v),
            Err(cause) => out == Err::<T, BenchmarkFailure>(
                BenchmarkFailure { config, error: phase_error(phase, cause) },
            ),
        },
{
    match r {
        Ok(v) => Ok(v),
        Err(cause) => {
            let error = match phase {
                Phase::Load => SmolVLMError::Load(cause),
                Phase::Preprocess => SmolVLMError::Preprocess(cause),
                Phase::Generate => SmolVLMError::Generate(cause),
            };
            Err(BenchmarkFailure { config, error })
        },
    }
}

/// The configurations of a list of outcomes, in order.
pub open spec fn outcome_configs(outs: Seq<BenchmarkOutcome>) -> Seq<BenchmarkConfiguration> {
    outs.map_values(|o: BenchmarkOutcome| outcome_config(o))
}

/// Runs one configuration: load, then preprocess, then generate, each timed
/// on its own. The first phase that fails ends the run with a failure for
/// this configuration; no partial result is kept.
pub fn benchmark_model<H: BenchmarkHost>(
    host: &mut H,
    config: BenchmarkConfiguration,
    model_path: &str,
    image_path: &str,
    prompt: &str,
) -> (r: BenchmarkOutcome)
    ensures
        final(host).events().len() >= old(host).events().len(),
        final(host).events().take(old(host).events().len() as int) == old(host).events(),
        run_log(
            config,
            model_path@,
            image_path@,
            prompt@,
            final(host).events().skip(old(host).events().len() as int),
            r,
        ),
        outcome_config(r) == config,
{
    let ghost before = host.events();
    let start = host.now_nanos();
    let loaded = host.load_backend(config.backend, config.variant, config.use_cpu, model_path);
    let mut model = match phase_result(config, Phase::Load, loaded) {
        Ok(m) => m,
        Err(f) => {
            return Err(f);
        },
    };
    let end = host.now_nanos();
    let load_time = elapsed(start, end);

    let start = host.now_nanos();
    let processed = host.process_image(&mut model, image_path);
    let input = match phase_result(config, Phase::Preprocess, processed) {
        Ok(i) => i,
        Err(f) => {
            return Err(f);
        },
    };
    let end = host.now_nanos();
    let process_time = elapsed(start, end);

    let start = host.now_nanos();
    let generated = host.generate(&mut model, &input, prompt);
    let output = match phase_result(config, Phase::Generate, generated) {
        Ok(o) => o,
        Err(f) => {
            return Err(f);
        },
    };
    let end = host.now_nanos();
    let generate_time = elapsed(start, end);

    Ok(BenchmarkResult {
        backend: config.backend,
        variant: config.variant,
        use_cpu: config.use_cpu,
        load_time,
        process_time,
        generate_time,
        output,
    })
}

/// The events of consecutive runs, one after another.
pub open spec fn concat_logs(logs: Seq<Seq<HostEvent>>) -> Seq<HostEvent>
    decreases logs.len(),
{
    if logs.len() == 0 {
        Seq::empty()
    } else {
        concat_logs(logs.drop_last()) + logs.last()
    }
}

/// `ev` is what a host saw while `configs` were run one after another, in
/// order, each to its end before the next began, and `outs` are their
/// outcomes.
pub open spec fn runs_log(
    configs: Seq<BenchmarkConfiguration>,
    model_path: Seq<char>,
    image_path: Seq<char>,
    prompt: Seq<char>,
    ev: Seq<HostEvent>,
    outs: Seq<BenchmarkOutcome>,
) -> bool {
    exists|logs: Seq<Seq<HostEvent>>|
        logs.len() == configs.len() && outs.len() == configs.len() && ev == concat_logs(logs) && forall|i: int|
            0 <= i < configs.len() ==> #[trigger] run_log(configs[i], model_path, image_path, prompt, logs[i], outs[i])
}

/// The answer of a probe event.
pub open spec fn probed(e: HostEvent) -> bool {
    match e {
        HostEvent::Probe { available } => available,
        _ => false,
    }
}

proof fn lemma_loads_append(a: Seq<HostEvent>, b: Seq<HostEvent>)
    ensures
        loads(a + b) == loads(a) + loads(b),
    decreases b.len(),
{
    if b.len() == 0 {
        assert(a + b =~= a);
        assert(loads(a) + loads(b) =~= loads(a));
    } else {
        lemma_loads_append(a, b.drop_last());
        assert((a + b).drop_last() =~= a + b.drop_last());
        assert(loads(a + b) =~= loads(a) + loads(b));
    }
}

proof fn lemma_loads_none(ev: Seq<HostEvent>)
    requires
        forall|j: int| 0 <= j < ev.len() ==> !(#[trigger] ev[j] is Load),
    ensures
        loads(ev) == Seq::<BenchmarkConfiguration>::empty(),
    decreases ev.len(),
{
    if ev.len() > 0 {
        lemma_loads_none(ev.drop_last());
        assert(loads(ev) =~= Seq::<BenchmarkConfiguration>::empty());
    }
}

proof fn lemma_loads_single(ev: Seq<HostEvent>, k: int, c: BenchmarkConfiguration)
    requires
        0 <= k < ev.len(),
        ev[k] is Load,
        ev[k]->Load_config == c,
        forall|j: int| 0 <= j < ev.len() && j != k ==> !(#[trigger] ev[j] is Load),
    ensures
        loads(ev) == seq![c],
    decreases ev.len(),
{
    let prev = ev.drop_last();
    if k == ev.len() - 1 {
        lemma_loads_none(prev);
        assert(loads(ev) =~= seq![c]);
    } else {
        lemma_loads_single(prev, k, c);
        assert(loads(ev) =~= seq![c]);
    }
}

proof fn lemma_run_log_loads(
    config: BenchmarkConfiguration,
    model_path: Seq<char>,
    image_path: Seq<char>,
    prompt: Seq<char>,
    ev: Seq<HostEvent>,
    r: BenchmarkOutcome,
)
    requires
        run_log(config, model_path, image_path, prompt, ev, r),
    ensures
        loads(ev) == seq![config],
{
    assert forall|j: int| 0 <= j < ev.len() && j != 1 implies !(#[trigger] ev[j] is Load) by {
        if j >= 4 {
            assert(ev.len() >= 5);
        }
    }
    lemma_loads_single(ev, 1, config);
}

/// The configurations loaded by consecutive runs are the runs'
/// configurations, each once, in order.
pub proof fn lemma_runs_loads(
    configs: Seq<BenchmarkConfiguration>,
    model_path: Seq<char>,
    image_path: Seq<char>,
    prompt: Seq<char>,
    logs: Seq<Seq<HostEvent>>,
    outs: Seq<BenchmarkOutcome>,
)
    requires
        logs.len() == configs.len(),
        outs.len() == configs.len(),
        forall|i: int|
            0 <= i < configs.len() ==> #[trigger] run_log(configs[i], model_path, image_path, prompt, logs[i], outs[i]),
    ensures
        loads(concat_logs(logs)) == configs,
    decreases logs.len(),
{
    if logs.len() == 0 {
        assert(configs =~= Seq::<BenchmarkConfiguration>::empty());
    } else {
        let n = logs.len() - 1;
        assert forall|i: int| 0 <= i < n implies #[trigger] run_log(
            configs.drop_last()[i],
            model_path,
            image_path,
            prompt,
            logs.drop_last()[i],
            outs.drop_last()[i],
        ) by {
            assert(run_log(configs[i], model_path, image_path, prompt, logs[i], outs[i]));
        }
        lemma_runs_loads(configs.drop_last(), model_path, image_path, prompt, logs.drop_last(), outs.drop_last());
        assert(run_log(configs[n], model_path, image_path, prompt, logs[n], outs[n]));
        lemma_run_log_loads(configs[n], model_path, image_path, prompt, logs[n], outs[n]);
        lemma_loads_append(concat_logs(logs.drop_last()), logs.last());
        assert(configs =~= configs.drop_last().push(configs[n]));
    }
}

/// Runs the given configurations one after another, in order. A failure
/// does not stop the configurations after it.
pub fn run_configurations<H: BenchmarkHost>(
    host: &mut H,
    configs: &Vec<BenchmarkConfiguration>,
    model_path: &str,
    image_path: &str,
    prompt: &str,
) -> (r: Vec<BenchmarkOutcome>)
    ensures
        final(host).events().len() >= old(host).events().len(),
        final(host).events().take(old(host).events().len() as int) == old(host).events(),
        runs_log(
            configs@,
            model_path@,
            image_path@,
            prompt@,
            final(host).events().skip(old(host).events().len() as int),
            r@,
        ),
        loads(final(host).events().skip(old(host).events().len() as int)) == configs@,
        outcome_configs(r@) == configs@,
{
    let ghost start = host.events();
    let ghost mut logs: Seq<Seq<HostEvent>> = Seq::empty();
    let mut r: Vec<BenchmarkOutcome> = Vec::new();
    let mut i: usize = 0;
    while i < configs.len()
        invariant
            i <= configs@.len(),
            logs.len() == i,
            r@.len() == i,
            host.events() == start + concat_logs(logs),
            forall|j: int|
                0 <= j < i ==> #[trigger] run_log(configs@[j], model_path@, image_path@, prompt@, logs[j], r@[j]),
            outcome_configs(r@) == configs@.take(i as int),
        decreases configs@.len() - i,
    {
        let ghost ev0 = host.events();
        let o = benchmark_model(host, configs[i], model_path, image_path, prompt);
        let ghost log = host.events().skip(ev0.len() as int);
        proof {
            assert(host.events() =~= ev0 + log);
            assert(concat_logs(logs.push(log)) =~= concat_logs(logs) + log) by {
                assert(logs.push(log).drop_last() =~= logs);
            }
            logs = logs.push(log);
        }
        let ghost prev = r@;
        let ghost added = o;
        r.push(o);
        assert(outcome_configs(r@) =~= outcome_configs(prev).push(outcome_config(added)));
        i = i + 1;
        assert(outcome_configs(r@) =~= configs@.take(i as int));
        assert(host.events() =~= start + concat_logs(logs));
    }
    assert(configs@.take(i as int) =~= configs@);
    assert(host.events().skip(start.len() as int) =~= concat_logs(logs));
    assert(host.events().take(start.len() as int) =~= start);
    proof {
        lemma_runs_loads(configs@, model_path@, image_path@, prompt@, logs, r@);
    }
    r
}

/// Runs the whole matrix: the accelerator is probed once, first, accelerator
/// entries are dropped when it is unavailable, and every remaining
/// (backend, variant, device) configuration is run in cross-product order;
/// only those are handed to the host.
pub fn run_benchmarks<H: BenchmarkHost>(
    host: &mut H,
    backends: &[SmolVLMModel],
    variants: &[SmolVLMVariant],
    devices: &[bool],
    model_path: &str,
    image_path: &str,
    prompt: &str,
) -> (r: Vec<BenchmarkOutcome>)
    ensures
        final(host).events().len() > old(host).events().len(),
        final(host).events().take(old(host).events().len() as int) == old(host).events(),
        final(host).events()[old(host).events().len() as int] is Probe,
        outcome_configs(r@) == plan(
            backends@,
            variants@,
            kept_devices(devices@, probed(final(host).events()[old(host).events().len() as int])),
        ),
        loads(final(host).events().skip(old(host).events().len() as int)) == plan(
            backends@,
            variants@,
            kept_devices(devices@, probed(final(host).events()[old(host).events().len() as int])),
        ),
        runs_log(
            plan(
                backends@,
                variants@,
                kept_devices(devices@, probed(final(host).events()[old(host).events().len() as int])),
            ),
            model_path@,
            image_path@,
            prompt@,
            final(host).events().skip(old(host).events().len() + 1int),
            r@,
        ),
{
    let ghost start = host.events();
    let accelerator = host.accelerator_available();
    let ghost mid = host.events();
    let configs = plan_configurations(backends, variants, devices, accelerator);
    let r = run_configurations(host, &configs, model_path, image_path, prompt);
    proof {
        let fin = host.events();
        assert(mid == start.push(HostEvent::Probe { available: accelerator }));
        assert(fin =~= mid + fin.skip(mid.len() as int));
        assert(fin[start.len() as int] == mid[start.len() as int]);
        assert(fin.take(start.len() as int) =~= start);
        assert(fin.skip(start.len() + 1int) =~= fin.skip(mid.len() as int));
        assert(fin.skip(start.len() as int) =~= seq![HostEvent::Probe { available: accelerator }] + fin.skip(
            mid.len() as int,
        ));
        lemma_loads_append(seq![HostEvent::Probe { available: accelerator }], fin.skip(mid.len() as int));
        reveal_with_fuel(loads, 2);
        assert(loads(seq![HostEvent::Probe { available: accelerator }]) =~= Seq::<BenchmarkConfiguration>::empty());
        assert(loads(fin.skip(start.len() as int)) =~= configs@);
    }
    r
}

/// The outcomes of a matrix run are one per configuration of the filtered
/// matrix, |backends| x |variants| x |attempted devices| in all, in
/// cross-product order: backend outermost, device innermost.
pub proof fn lemma_run_shape(
    outs: Seq<BenchmarkOutcome>,
    bs: Seq<SmolVLMModel>,
    vs: Seq<SmolVLMVariant>,
    ds: Seq<bool>,
    accelerator: bool,
)
    requires
        outcome_configs(outs) == plan(bs, vs, kept_devices(ds, accelerator)),
    ensures
        outs.len() == bs.len() * vs.len() * kept_devices(ds, accelerator).len(),
        forall|i: int|
            0 <= i < outs.len() ==> #[trigger] outcome_config(outs[i]) == configuration(
                bs[i / (vs.len() * kept_devices(ds, accelerator).len()) as int],
                vs[(i / kept_devices(ds, accelerator).len() as int) % vs.len() as int],
                kept_devices(ds, accelerator)[i % kept_devices(ds, accelerator).len() as int],
            ),
{
    let kept = kept_devices(ds, accelerator);
    lemma_plan_shape(bs, vs, kept);
    assert(outs.len() == outcome_configs(outs).len());
    assert forall|i: int| 0 <= i < outs.len() implies #[trigger] outcome_config(outs[i]) == configuration(
        bs[i / (vs.len() * kept.len()) as int],
        vs[(i / kept.len() as int) % vs.len() as int],
        kept[i % kept.len() as int],
    ) by {
        assert(outcome_configs(outs)[i] == outcome_config(outs[i]));
    }
}

/// When the probe reports no accelerator, no outcome of the run is for the
/// accelerator.
pub proof fn lemma_run_without_accelerator(
    outs: Seq<BenchmarkOutcome>,
    bs: Seq<SmolVLMModel>,
    vs: Seq<SmolVLMVariant>,
    ds: Seq<bool>,
)
    requires
        outcome_configs(outs) == plan(bs, vs, kept_devices(ds, false)),
    ensures
        forall|i: int| 0 <= i < outs.len() ==> #[trigger] outcome_config(outs[i]).use_cpu,
{
    lemma_plan_without_accelerator(bs, vs, ds);
    assert forall|i: int| 0 <= i < outs.len() implies #[trigger] outcome_config(outs[i]).use_cpu by {
        assert(outcome_configs(outs)[i] == outcome_config(outs[i]));
    }
}

} // verus!
