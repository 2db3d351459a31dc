//! Expansion of the configuration matrix.
use vstd::prelude::*;
use vstd::arithmetic::div_mod::lemma_fundamental_div_mod_converse;
use crate::types::{BenchmarkConfiguration, SmolVLMModel, SmolVLMVariant};

verus! {

/// The device preferences that are attempted, in order: every CPU entry, and
/// the accelerator entries only when an accelerator is available.
pub open spec fn kept_devices(ds: Seq<bool>, accelerator: bool) -> Seq<bool>
    decreases ds.len(),
{
    if ds.len() == 0 {
        Seq::empty()
    } else {
        kept_devices(ds.drop_last(), accelerator) + if ds.last() || accelerator {
            seq![ds.last()]
        } else {
            Seq::empty()
        }
    }
}

/// The configuration of backend `b`, variant `v` and device `d`.
pub open spec fn configuration(b: SmolVLMModel, v: SmolVLMVariant, d: bool) -> BenchmarkConfiguration {
    BenchmarkConfiguration { backend: b, variant: v, use_cpu: d }
}

/// One backend and variant on each of the devices.
pub open spec fn device_row(b: SmolVLMModel, v: SmolVLMVariant, ds: Seq<bool>) -> Seq<BenchmarkConfiguration> {
    ds.map_values(|d: bool| configuration(b, v, d))
}

/// One backend, each variant on each of the devices.
pub open spec fn variant_block(b: SmolVLMModel, vs: Seq<SmolVLMVariant>, ds: Seq<bool>) -> Seq<BenchmarkConfiguration>
    decreases vs.len(),
{
    if vs.len() == 0 {
        Seq::empty()
    } else {
        variant_block(b, vs.drop_last(), ds) + device_row(b, vs.last(), ds)
    }
}

/// The cross product of backends, variants and devices: backend outermost,
/// device innermost.
pub open spec fn plan(bs: Seq<SmolVLMModel>, vs: Seq<SmolVLMVariant>, ds: Seq<bool>) -> Seq<BenchmarkConfiguration>
    decreases bs.len(),
{
    if bs.len() == 0 {
        Seq::empty()
    } else {
        plan(bs.drop_last(), vs, ds) + variant_block(bs.last(), vs, ds)
    }
}

/// The device preferences to attempt, given whether an accelerator is
/// available.
pub fn available_devices(devices: &[bool], accelerator: bool) -> (r: Vec<bool>)
    ensures
        r@ == kept_devices(devices@, accelerator),
{
    let mut r: Vec<bool> = Vec::new();
    let mut k: usize = 0;
    while k < devices.len()
        invariant
            k <= devices@.len(),
            r@ == kept_devices(devices@.take(k as int), accelerator),
        decreases devices@.len() - k,
    {
        let d = devices[k];
        assert(devices@.take(k as int + 1).drop_last() =~= devices@.take(k as int));
        if d || accelerator {
            r.push(d);
        }
        k = k + 1;
        assert(r@ =~= kept_devices(devices@.take(k as int), accelerator));
    }
    assert(devices@.take(k as int) =~= devices@);
    r
}

/// The ordered configurations of a matrix run: backend outer, variant
/// middle, device inner, with accelerator entries dropped when no
/// accelerator is available.
pub fn plan_configurations(
    backends: &[SmolVLMModel],
    variants: &[SmolVLMVariant],
    devices: &[bool],
    accelerator: bool,
) -> (r: Vec<BenchmarkConfiguration>)
    ensures
        r@ == plan(backends@, variants@, kept_devices(devices@, accelerator)),
{
    let ds = available_devices(devices, accelerator);
    let ghost bs = backends@;
    let ghost vs = variants@;
    let mut r: Vec<BenchmarkConfiguration> = Vec::new();
    let mut i: usize = 0;
    while i < backends.len()
        invariant
            bs == backends@,
            vs == variants@,
            i <= bs.len(),
            r@ == plan(bs.take(i as int), vs, ds@),
        decreases bs.len() - i,
    {
        let b = backends[i];
        let ghost before = r@;
        let mut j: usize = 0;
        while j < variants.len()
            invariant
                bs == backends@,
                vs == variants@,
                i < bs.len(),
                j <= vs.len(),
                b == bs[i as int],
                r@ == before + variant_block(b, vs.take(j as int), ds@),
            decreases vs.len() - j,
        {
            let v = variants[j];
            let ghost mid = r@;
            let mut k: usize = 0;
            while k < ds.len()
                invariant
                    k <= ds@.len(),
                    r@ == mid + device_row(b, v, ds@.take(k as int)),
                decreases ds@.len() - k,
            {
                r.push(BenchmarkConfiguration { backend: b, variant: v, use_cpu: ds[k] });
                k = k + 1;
                assert(device_row(b, v, ds@.take(k as int)) =~= device_row(b, v, ds@.take(k - 1 as int)).push(
                    configuration(b, v, ds@[k - 1 as int]),
                ));
                assert(r@ =~= mid + device_row(b, v, ds@.take(k as int)));
            }
            assert(ds@.take(k as int) =~= ds@);
            j = j + 1;
            assert(vs.take(j as int).drop_last() =~= vs.take(j - 1 as int));
            assert(r@ =~= before + variant_block(b, vs.take(j as int), ds@));
        }
        assert(vs.take(j as int) =~= vs);
        i = i + 1;
        assert(bs.take(i as int).drop_last() =~= bs.take(i - 1 as int));
        assert(r@ =~= plan(bs.take(i as int), vs, ds@));
    }
    assert(bs.take(i as int) =~= bs);
    r
}

proof fn lemma_variant_block(b: SmolVLMModel, vs: Seq<SmolVLMVariant>, ds: Seq<bool>)
    ensures
        variant_block(b, vs, ds).len() == vs.len() * ds.len(),
        forall|i: int|
            0 <= i < vs.len() * ds.len() ==> #[trigger] variant_block(b, vs, ds)[i] == configuration(
                b,
                vs[i / ds.len() as int],
                ds[i % ds.len() as int],
            ),
    decreases vs.len(),
{
    let n = vs.len() as int;
    let d = ds.len() as int;
    if n > 0 {
        let prev = vs.drop_last();
        lemma_variant_block(b, prev, ds);
        assert((n - 1) * d + d == n * d) by (nonlinear_arith);
        assert forall|i: int| 0 <= i < n * d implies #[trigger] variant_block(b, vs, ds)[i] == configuration(
            b,
            vs[i / d],
            ds[i % d],
        ) by {
            if i < (n - 1) * d {
                assert(variant_block(b, vs, ds)[i] == variant_block(b, prev, ds)[i]);
                vstd::arithmetic::div_mod::lemma_fundamental_div_mod(i, d);
                vstd::arithmetic::div_mod::lemma_mod_pos_bound(i, d);
                vstd::arithmetic::div_mod::lemma_div_pos_is_pos(i, d);
                if i / d >= n - 1 {
                    assert((i / d) * d >= (n - 1) * d) by (nonlinear_arith)
                        requires i / d >= n - 1, d > 0;
                }
            } else {
                let j = i - (n - 1) * d;
                assert(variant_block(b, vs, ds)[i] == device_row(b, vs.last(), ds)[j]);
                lemma_fundamental_div_mod_converse(i, d, n - 1, j);
            }
        }
    }
}

/// The matrix holds exactly |backends| x |variants| x |devices| configurations,
/// in cross-product order: backend outermost, variant in the middle, device
/// innermost.
pub proof fn lemma_plan_shape(bs: Seq<SmolVLMModel>, vs: Seq<SmolVLMVariant>, ds: Seq<bool>)
    ensures
        plan(bs, vs, ds).len() == bs.len() * vs.len() * ds.len(),
        forall|i: int|
            0 <= i < bs.len() * vs.len() * ds.len() ==> #[trigger] plan(bs, vs, ds)[i] == configuration(
                bs[i / (vs.len() * ds.len()) as int],
                vs[(i / ds.len() as int) % vs.len() as int],
                ds[i % ds.len() as int],
            ),
    decreases bs.len(),
{
    let m = bs.len() as int;
    let v = vs.len() as int;
    let d = ds.len() as int;
    let w = v * d;
    assert(bs.len() * vs.len() * ds.len() == m * w) by (nonlinear_arith)
        requires m == bs.len(), v == vs.len(), d == ds.len(), w == v * d;
    if m == 0 {
        assert(m * w == 0);
    }
    if m > 0 {
        let prev = bs.drop_last();
        lemma_plan_shape(prev, vs, ds);
        lemma_variant_block(bs.last(), vs, ds);
        assert((m - 1) * v * d + v * d == m * v * d) by (nonlinear_arith);
        assert((m - 1) * v * d == (m - 1) * w) by (nonlinear_arith) requires w == v * d;
        assert(m * v * d == m * w) by (nonlinear_arith) requires w == v * d;
        assert forall|i: int| 0 <= i < m * w implies #[trigger] plan(bs, vs, ds)[i] == configuration(
            bs[i / w],
            vs[(i / d) % v],
            ds[i % d],
        ) by {
            if i < (m - 1) * w {
                assert(plan(bs, vs, ds)[i] == plan(prev, vs, ds)[i]);
                vstd::arithmetic::div_mod::lemma_fundamental_div_mod(i, w);
                vstd::arithmetic::div_mod::lemma_mod_pos_bound(i, w);
                vstd::arithmetic::div_mod::lemma_div_pos_is_pos(i, w);
                if i / w >= m - 1 {
                    assert((i / w) * w >= (m - 1) * w) by (nonlinear_arith)
                        requires i / w >= m - 1, w > 0;
                }
            } else {
                let j = i - (m - 1) * w;
                assert(plan(bs, vs, ds)[i] == variant_block(bs.last(), vs, ds)[j]);
                lemma_fundamental_div_mod_converse(i, w, m - 1, j);
                // j == (j / d) * d + j % d, and j / d < v
                vstd::arithmetic::div_mod::lemma_fundamental_div_mod(j, d);
                vstd::arithmetic::div_mod::lemma_mod_pos_bound(j, d);
                vstd::arithmetic::div_mod::lemma_div_pos_is_pos(j, d);
                let q = j / d;
                let r = j % d;
                assert(q < v) by {
                    if q >= v {
                        assert(q * d >= v * d) by (nonlinear_arith) requires q >= v, d > 0;
                    }
                }
                assert(i == ((m - 1) * v + q) * d + r) by (nonlinear_arith)
                    requires i == (m - 1) * w + j, w == v * d, j == q * d + r;
                lemma_fundamental_div_mod_converse(i, d, (m - 1) * v + q, r);
                assert((m - 1) * v + q == q + (m - 1) * v);
                lemma_fundamental_div_mod_converse((m - 1) * v + q, v, m - 1, q);
            }
        }
    }
}

/// Without an available accelerator, every planned configuration runs on
/// the CPU, and as many run as there are CPU entries among the devices.
pub proof fn lemma_plan_without_accelerator(bs: Seq<SmolVLMModel>, vs: Seq<SmolVLMVariant>, ds: Seq<bool>)
    ensures
        forall|i: int|
            0 <= i < plan(bs, vs, kept_devices(ds, false)).len() ==> #[trigger] plan(
                bs,
                vs,
                kept_devices(ds, false),
            )[i].use_cpu,
{
    let kept = kept_devices(ds, false);
    lemma_kept_devices(ds, false);
    lemma_plan_shape(bs, vs, kept);
    assert forall|i: int| 0 <= i < plan(bs, vs, kept).len() implies #[trigger] plan(bs, vs, kept)[i].use_cpu by {
        let d = kept.len() as int;
        assert(d > 0) by {
            if d == 0 {
                assert(bs.len() * vs.len() * d == 0) by (nonlinear_arith) requires d == 0;
            }
        }
        vstd::arithmetic::div_mod::lemma_mod_pos_bound(i, d);
    }
}

/// The attempted devices are those of the input that are CPU entries or for
/// which an accelerator is available, in their order.
pub proof fn lemma_kept_devices(ds: Seq<bool>, accelerator: bool)
    ensures
        forall|k: int| 0 <= k < kept_devices(ds, accelerator).len() ==> (#[trigger] kept_devices(ds, accelerator)[k] || accelerator),
        accelerator ==> kept_devices(ds, accelerator) == ds,
    decreases ds.len(),
{
    if ds.len() > 0 {
        let prev = kept_devices(ds.drop_last(), accelerator);
        lemma_kept_devices(ds.drop_last(), accelerator);
        assert forall|k: int| 0 <= k < kept_devices(ds, accelerator).len() implies (#[trigger] kept_devices(ds, accelerator)[k] || accelerator) by {
            if k < prev.len() {
                assert(kept_devices(ds, accelerator)[k] == prev[k]);
            }
        }
        if accelerator {
            assert(kept_devices(ds, accelerator) =~= ds);
        }
    } else {
        if accelerator {
            assert(kept_devices(ds, accelerator) =~= ds);
        }
    }
}

proof fn lemma_kept_all_cpu(ds: Seq<bool>, accelerator: bool)
    requires
        forall|k: int| 0 <= k < ds.len() ==> #[trigger] ds[k],
    ensures
        kept_devices(ds, accelerator) == ds,
    decreases ds.len(),
{
    if ds.len() > 0 {
        lemma_kept_all_cpu(ds.drop_last(), accelerator);
        assert(ds[ds.len() - 1]);
        assert(kept_devices(ds, accelerator) =~= ds);
    } else {
        assert(kept_devices(ds, accelerator) =~= ds);
    }
}

/// Without an available accelerator, a matrix plans exactly the
/// configurations of the same matrix over its CPU entries alone, whatever
/// the probe says in that second run: accelerator entries are dropped, not
/// attempted.
pub proof fn lemma_dropped_accelerator_same_plan(
    bs: Seq<SmolVLMModel>,
    vs: Seq<SmolVLMVariant>,
    ds: Seq<bool>,
    accelerator: bool,
)
    ensures
        plan(bs, vs, kept_devices(ds, false)) == plan(bs, vs, kept_devices(kept_devices(ds, false), accelerator)),
{
    lemma_kept_devices(ds, false);
    lemma_kept_all_cpu(kept_devices(ds, false), accelerator);
}

} // verus!
