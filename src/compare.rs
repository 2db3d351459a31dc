//! Side-by-side comparison of backends that ran the same variant on the
//! same device.
use vstd::prelude::*;
use vstd::seq_lib::lemma_seq_contains_after_push;
use crate::report::{
    backend_label, backend_name, device_label, device_name, throughput_hundredths, throughput_spec,
    variant_label, variant_name,
};
use crate::text::{duration_text, hundredths_text, push_duration, push_hundredths};
use crate::types::{BenchmarkOutcome, BenchmarkResult, SmolVLMVariant};

verus! {

/// What successful results are grouped by: the variant and the device.
pub type GroupKey = (SmolVLMVariant, bool);

pub open spec fn group_key(r: BenchmarkResult) -> GroupKey {
    (r.variant, r.use_cpu)
}

/// The successful results of group `key`, in the order of the outcomes.
pub open spec fn members(outs: Seq<BenchmarkOutcome>, key: GroupKey) -> Seq<BenchmarkResult>
    decreases outs.len(),
{
    if outs.len() == 0 {
        Seq::empty()
    } else {
        let prev = members(outs.drop_last(), key);
        match outs.last() {
            Ok(r) => if group_key(r) == key { prev.push(r) } else { prev },
            Err(_) => prev,
        }
    }
}

/// The groups that hold a successful result, each once, in the order of
/// their first result.
pub open spec fn group_keys(outs: Seq<BenchmarkOutcome>) -> Seq<GroupKey>
    decreases outs.len(),
{
    if outs.len() == 0 {
        Seq::empty()
    } else {
        let prev = group_keys(outs.drop_last());
        match outs.last() {
            Ok(r) => if prev.contains(group_key(r)) { prev } else { prev.push(group_key(r)) },
            Err(_) => prev,
        }
    }
}

/// The keys of `ks` whose group has two or more successful results.
pub open spec fn keep_compared(outs: Seq<BenchmarkOutcome>, ks: Seq<GroupKey>) -> Seq<GroupKey>
    decreases ks.len(),
{
    if ks.len() == 0 {
        Seq::empty()
    } else {
        keep_compared(outs, ks.drop_last()) + if members(outs, ks.last()).len() >= 2 {
            seq![ks.last()]
        } else {
            Seq::empty()
        }
    }
}

/// The groups shown in the comparison.
pub open spec fn compared_keys(outs: Seq<BenchmarkOutcome>) -> Seq<GroupKey> {
    keep_compared(outs, group_keys(outs))
}

pub open spec fn timing_line(r: BenchmarkResult) -> Seq<char> {
    backend_name(r.backend) + " - Process: "@ + duration_text(r.process_time as nat) + ", Generate: "@
        + duration_text(r.generate_time as nat) + ", Total: "@ + duration_text(r.total_spec())
        + ", FPS: "@ + hundredths_text(throughput_spec(r.process_time as nat)) + "\n"@
}

pub open spec fn timing_lines(ms: Seq<BenchmarkResult>) -> Seq<char>
    decreases ms.len(),
{
    if ms.len() == 0 {
        Seq::empty()
    } else {
        timing_lines(ms.drop_last()) + timing_line(ms.last())
    }
}

pub open spec fn output_line(r: BenchmarkResult) -> Seq<char> {
    backend_name(r.backend) + ": "@ + r.output@ + "\n"@
}

pub open spec fn output_lines(ms: Seq<BenchmarkResult>) -> Seq<char>
    decreases ms.len(),
{
    if ms.len() == 0 {
        Seq::empty()
    } else {
        output_lines(ms.drop_last()) + output_line(ms.last())
    }
}

/// The section of one group: a heading, a timing line per result, then the
/// generated texts.
pub open spec fn section_text(key: GroupKey, ms: Seq<BenchmarkResult>) -> Seq<char> {
    "\n=== "@ + variant_name(key.0) + " on "@ + device_name(key.1) + " ===\n"@ + timing_lines(ms)
        + "\nOutputs:\n"@ + output_lines(ms)
}

pub open spec fn sections(outs: Seq<BenchmarkOutcome>, ks: Seq<GroupKey>) -> Seq<char>
    decreases ks.len(),
{
    if ks.len() == 0 {
        Seq::empty()
    } else {
        sections(outs, ks.drop_last()) + section_text(ks.last(), members(outs, ks.last()))
    }
}

/// The comparison: one section per compared group, in order of first
/// appearance.
pub open spec fn comparison_text(outs: Seq<BenchmarkOutcome>) -> Seq<char> {
    sections(outs, compared_keys(outs))
}

fn contains_key(keys: &Vec<GroupKey>, key: GroupKey) -> (r: bool)
    ensures
        r == keys@.contains(key),
{
    let mut i: usize = 0;
    while i < keys.len()
        invariant
            i <= keys@.len(),
            forall|j: int| 0 <= j < i ==> keys@[j] != key,
        decreases keys@.len() - i,
    {
        if keys[i].0 == key.0 && keys[i].1 == key.1 {
            assert(keys@[i as int] == key);
            return true;
        }
        i = i + 1;
    }
    false
}

fn collect_group_keys(results: &[BenchmarkOutcome]) -> (r: Vec<GroupKey>)
    ensures
        r@ == group_keys(results@),
{
    let mut keys: Vec<GroupKey> = Vec::new();
    let mut i: usize = 0;
    while i < results.len()
        invariant
            i <= results@.len(),
            keys@ == group_keys(results@.take(i as int)),
        decreases results@.len() - i,
    {
        assert(results@.take(i + 1 as int).drop_last() =~= results@.take(i as int));
        match &results[i] {
            Ok(r) => {
                let key = (r.variant, r.use_cpu);
                if !contains_key(&keys, key) {
                    keys.push(key);
                }
            },
            Err(_) => {},
        }
        i = i + 1;
    }
    assert(results@.take(i as int) =~= results@);
    keys
}

fn is_member(o: &BenchmarkOutcome, key: GroupKey) -> (r: bool)
    ensures
        r == match *o {
            Ok(res) => group_key(res) == key,
            Err(_) => false,
        },
{
    match o {
        Ok(res) => res.variant == key.0 && res.use_cpu == key.1,
        Err(_) => false,
    }
}

fn count_members(results: &[BenchmarkOutcome], key: GroupKey) -> (r: usize)
    ensures
        r == members(results@, key).len(),
{
    let mut n: usize = 0;
    let mut i: usize = 0;
    while i < results.len()
        invariant
            i <= results@.len(),
            n == members(results@.take(i as int), key).len(),
            n <= i,
        decreases results@.len() - i,
    {
        assert(results@.take(i + 1 as int).drop_last() =~= results@.take(i as int));
        if is_member(&results[i], key) {
            n = n + 1;
        }
        i = i + 1;
    }
    assert(results@.take(i as int) =~= results@);
    n
}

fn push_timing_line(s: &mut String, r: &BenchmarkResult)
    ensures
        final(s)@ == old(s)@ + timing_line(*r),
{
    s.append(backend_label(r.backend));
    s.append(" - Process: ");
    push_duration(s, r.process_time as u128);
    s.append(", Generate: ");
    push_duration(s, r.generate_time as u128);
    s.append(", Total: ");
    push_duration(s, r.total_time());
    s.append(", FPS: ");
    push_hundredths(s, throughput_hundredths(r) as u128);
    s.append("\n");
    assert(final(s)@ =~= old(s)@ + timing_line(*r));
}

fn push_timing_lines(s: &mut String, results: &[BenchmarkOutcome], key: GroupKey)
    ensures
        final(s)@ == old(s)@ + timing_lines(members(results@, key)),
{
    let mut i: usize = 0;
    while i < results.len()
        invariant
            i <= results@.len(),
            s@ == old(s)@ + timing_lines(members(results@.take(i as int), key)),
        decreases results@.len() - i,
    {
        assert(results@.take(i + 1 as int).drop_last() =~= results@.take(i as int));
        let ghost prev = members(results@.take(i as int), key);
        if is_member(&results[i], key) {
            match &results[i] {
                Ok(r) => {
                    push_timing_line(s, r);
                    assert(prev.push(*r).drop_last() =~= prev);
                    assert(s@ =~= old(s)@ + timing_lines(prev.push(*r)));
                },
                Err(_) => {},
            }
        }
        i = i + 1;
    }
    assert(results@.take(i as int) =~= results@);
}

fn push_output_lines(s: &mut String, results: &[BenchmarkOutcome], key: GroupKey)
    ensures
        final(s)@ == old(s)@ + output_lines(members(results@, key)),
{
    let mut i: usize = 0;
    while i < results.len()
        invariant
            i <= results@.len(),
            s@ == old(s)@ + output_lines(members(results@.take(i as int), key)),
        decreases results@.len() - i,
    {
        assert(results@.take(i + 1 as int).drop_last() =~= results@.take(i as int));
        let ghost prev = members(results@.take(i as int), key);
        if is_member(&results[i], key) {
            match &results[i] {
                Ok(r) => {
                    s.append(backend_label(r.backend));
                    s.append(": ");
                    s.append(r.output.as_str());
                    s.append("\n");
                    assert(prev.push(*r).drop_last() =~= prev);
                    assert(s@ =~= old(s)@ + output_lines(prev.push(*r)));
                },
                Err(_) => {},
            }
        }
        i = i + 1;
    }
    assert(results@.take(i as int) =~= results@);
}

fn push_section(s: &mut String, results: &[BenchmarkOutcome], key: GroupKey)
    ensures
        final(s)@ == old(s)@ + section_text(key, members(results@, key)),
{
    s.append("\n=== ");
    s.append(variant_label(key.0));
    s.append(" on ");
    s.append(device_label(key.1));
    s.append(" ===\n");
    push_timing_lines(s, results, key);
    s.append("\nOutputs:\n");
    push_output_lines(s, results, key);
    assert(final(s)@ =~= old(s)@ + section_text(key, members(results@, key)));
}

/// Compares backends that ran the same variant on the same device. The
/// successful results are grouped by (variant, device); every group with
/// two or more results gets a section with each backend's timings and
/// throughput, then each backend's generated text. Groups with fewer
/// results are left out. Sections come in the order in which their groups
/// first appear.
pub fn compare_backends(results: &[BenchmarkOutcome]) -> (r: String)
    ensures
        r@ == comparison_text(results@),
{
    let keys = collect_group_keys(results);
    let mut s = String::new();
    let mut j: usize = 0;
    while j < keys.len()
        invariant
            j <= keys@.len(),
            keys@ == group_keys(results@),
            s@ == sections(results@, keep_compared(results@, keys@.take(j as int))),
        decreases keys@.len() - j,
    {
        let key = keys[j];
        assert(keys@.take(j + 1 as int).drop_last() =~= keys@.take(j as int));
        let ghost kept = keep_compared(results@, keys@.take(j as int));
        if count_members(results, key) >= 2 {
            push_section(&mut s, results, key);
            assert(kept.push(key).drop_last() =~= kept);
            assert(keep_compared(results@, keys@.take(j + 1 as int)) =~= kept.push(key));
        } else {
            assert(keep_compared(results@, keys@.take(j + 1 as int)) =~= kept);
        }
        j = j + 1;
    }
    assert(keys@.take(j as int) =~= keys@);
    s
}

proof fn lemma_push_no_duplicates(s: Seq<GroupKey>, x: GroupKey)
    requires
        s.no_duplicates(),
        !s.contains(x),
    ensures
        s.push(x).no_duplicates(),
{
    assert forall|i: int, j: int|
        0 <= i < s.push(x).len() && 0 <= j < s.push(x).len() && i != j implies s.push(x)[i] != s.push(x)[j] by {
        if i == s.len() {
            assert(s.contains(s[j]));
        } else if j == s.len() {
            assert(s.contains(s[i]));
        }
    }
}

/// The groups with a successful result, each listed once.
proof fn lemma_group_keys(outs: Seq<BenchmarkOutcome>)
    ensures
        group_keys(outs).no_duplicates(),
        forall|k: GroupKey| #[trigger] group_keys(outs).contains(k) <==> members(outs, k).len() > 0,
    decreases outs.len(),
{
    if outs.len() > 0 {
        let before = outs.drop_last();
        lemma_group_keys(before);
        let prev = group_keys(before);
        match outs.last() {
            Ok(r) => {
                let g = group_key(r);
                if !prev.contains(g) {
                    lemma_push_no_duplicates(prev, g);
                }
                assert forall|k: GroupKey| #[trigger] group_keys(outs).contains(k) <==> members(outs, k).len() > 0 by {
                    lemma_seq_contains_after_push(prev, g, k);
                }
            },
            Err(_) => {},
        }
    }
}

proof fn lemma_keep_compared(outs: Seq<BenchmarkOutcome>, ks: Seq<GroupKey>)
    ensures
        forall|k: GroupKey| #[trigger] keep_compared(outs, ks).contains(k) <==> (ks.contains(k) && members(outs, k).len() >= 2),
        ks.no_duplicates() ==> keep_compared(outs, ks).no_duplicates(),
    decreases ks.len(),
{
    if ks.len() > 0 {
        let rest = ks.drop_last();
        let x = ks.last();
        lemma_keep_compared(outs, rest);
        let prev = keep_compared(outs, rest);
        assert(ks =~= rest.push(x));
        if members(outs, x).len() >= 2 {
            assert(keep_compared(outs, ks) =~= prev.push(x));
        } else {
            assert(keep_compared(outs, ks) =~= prev);
        }
        assert forall|k: GroupKey| #[trigger] keep_compared(outs, ks).contains(k) <==> (ks.contains(k) && members(outs, k).len() >= 2) by {
            lemma_seq_contains_after_push(prev, x, k);
            lemma_seq_contains_after_push(rest, x, k);
        }
        if ks.no_duplicates() {
            assert(rest.no_duplicates()) by {
                assert forall|i: int, j: int| 0 <= i < rest.len() && 0 <= j < rest.len() && i != j implies rest[i] != rest[j] by {
                    assert(rest[i] == ks[i] && rest[j] == ks[j]);
                }
            }
            if members(outs, x).len() >= 2 {
                assert(!rest.contains(x)) by {
                    if rest.contains(x) {
                        let i = choose|i: int| 0 <= i < rest.len() && rest[i] == x;
                        assert(ks[i] == ks[ks.len() - 1]);
                    }
                }
                lemma_push_no_duplicates(prev, x);
            }
        }
    }
}

/// The comparison shows a (variant, device) group exactly when it holds two
/// or more successful results, and shows each such group once.
pub proof fn lemma_compared_groups(outs: Seq<BenchmarkOutcome>)
    ensures
        compared_keys(outs).no_duplicates(),
        forall|k: GroupKey| #[trigger] compared_keys(outs).contains(k) <==> members(outs, k).len() >= 2,
{
    lemma_group_keys(outs);
    lemma_keep_compared(outs, group_keys(outs));
}

} // verus!
