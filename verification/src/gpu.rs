//! The use that a job makes of GPUs.

use crate::number::to_decimal;
use std::collections::HashSet;
use vstd::prelude::*;

verus! {

use crate::number::decimal;
use vstd::arithmetic::power2::pow2;

/// The number of shards that make up one GPU.
pub const SHARDS_PER_GPU: u16 = 2;

/// The numbers below this one have at most 53 binary digits.
pub const FLOAT_LIMIT: u64 = 0x20_0000_0000_0000;

/// How many binary digits a number has beyond 53.
pub open spec fn excess_bits(x: nat) -> nat
    decreases x,
{
    if x < FLOAT_LIMIT {
        0
    } else {
        1 + excess_bits(x / 2)
    }
}

/// A quotient rounded to the nearest whole number, and to the even one of two that are equally
/// near.
pub open spec fn rounded_quotient(x: nat, unit: nat) -> nat {
    let q = x / unit;
    let r = x % unit;
    if 2 * r < unit || (2 * r == unit && q % 2 == 0) {
        q
    } else {
        q + 1
    }
}

/// The double-precision number that is nearest to `x`: a number with at most 53 significant binary
/// digits, and of two that are equally near the one whose last digit is zero.
pub open spec fn nearest_double(x: nat) -> nat {
    let unit = pow2(excess_bits(x));
    rounded_quotient(x, unit) * unit
}

/// The memory that goes with a number of shards, out of the memory of one GPU. Both the memory and
/// its product with the shards are rounded to double precision, and what is left is cut off to
/// whole bytes and to the greatest number of 64 bits.
pub open spec fn shard_memory(total: nat, shards: nat) -> nat {
    let bytes = nearest_double(nearest_double(total) * shards) / SHARDS_PER_GPU as nat;
    if bytes > u64::MAX {
        u64::MAX as nat
    } else {
        bytes
    }
}

/// Rounds to double precision.
fn round_to_double(x: u128) -> (r: u128)
    requires
        x < 0x1000_0000_0000_0000_0000_0000,
    ensures
        r == nearest_double(x as nat),
        r <= 2 * x,
{
    let mut unit: u128 = 1;
    let mut q: u128 = x;
    let ghost mut k: nat = 0;
    proof {
        vstd::arithmetic::power2::lemma2_to64();
        assert(x as nat / 1 == x);
    }
    while q >= FLOAT_LIMIT as u128
        invariant
            x < 0x1000_0000_0000_0000_0000_0000,
            unit == pow2(k),
            unit > 0,
            unit > 1 ==> q >= 1,
            q == x as nat / pow2(k),
            unit * q <= x,
            excess_bits(x as nat) == k + excess_bits(q as nat),
        decreases q,
    {
        proof {
            vstd::arithmetic::power2::lemma_pow2_unfold((k + 1) as nat);
            vstd::arithmetic::power2::lemma_pow2_pos(k);
            vstd::arithmetic::div_mod::lemma_div_denominator(x as int, pow2(k) as int, 2);
            assert(unit * 2 <= x) by (nonlinear_arith)
                requires
                    unit * q <= x,
                    q >= 2,
            ;
            assert((unit * 2) * (q / 2) <= unit * q) by (nonlinear_arith)
                requires
                    unit > 0,
                    q >= 0,
            ;
            k = k + 1;
        }
        unit = unit * 2;
        q = q / 2;
    }
    let r: u128 = x % unit;
    proof {
        assert(r < unit && r <= x && unit <= x + 1) by (nonlinear_arith)
            requires
                r == x % unit,
                unit > 0,
                unit * q <= x,
                unit > 1 ==> q >= 1,
        ;
        assert(unit > 1 ==> (q + 1) * unit <= 2 * x) by (nonlinear_arith)
            requires
                unit * q <= x,
                unit > 1 ==> q >= 1,
        ;
        assert(q * unit <= x) by (nonlinear_arith)
            requires
                unit * q <= x,
        ;
    }
    if 2 * r < unit || (2 * r == unit && q % 2 == 0) {
        q * unit
    } else {
        (q + 1) * unit
    }
}

/// The memory that goes with a number of shards, out of the memory of one GPU.
pub fn requested_gpu_memory(total: u64, shards: u8) -> (bytes: u64)
    ensures
        bytes == shard_memory(total as nat, shards as nat),
{
    let total: u128 = round_to_double(total as u128);
    assert(total * shards <= 2 * u64::MAX * 255) by (nonlinear_arith)
        requires
            total <= 2 * u64::MAX,
            shards <= 255,
    ;
    let bytes: u128 = round_to_double(total * shards as u128) / SHARDS_PER_GPU as u128;
    if bytes > u64::MAX as u128 {
        u64::MAX
    } else {
        bytes as u64
    }
}

/// What double precision holds is not rounded: below two to the power of 53 the memory is the exact
/// share, cut off to whole bytes.
pub proof fn law_small_memory_is_exact(total: nat, shards: nat)
    requires
        total < FLOAT_LIMIT,
        total * shards < FLOAT_LIMIT,
    ensures
        shard_memory(total, shards) == total * shards / SHARDS_PER_GPU as nat,
{
    lemma_small_is_exact(total);
    lemma_small_is_exact(total * shards);
}

proof fn lemma_small_is_exact(x: nat)
    requires
        x < FLOAT_LIMIT,
    ensures
        nearest_double(x) == x,
{
    vstd::arithmetic::power2::lemma2_to64();
    assert(x / 1 == x && x % 1 == 0);
    assert(nearest_double(x) == x * 1);
}

/// The memory of all shards of a GPU is that of the GPU.
pub proof fn law_all_shards_have_the_whole_memory(total: nat)
    requires
        total * SHARDS_PER_GPU < FLOAT_LIMIT,
    ensures
        shard_memory(total, SHARDS_PER_GPU as nat) == total,
{
    law_small_memory_is_exact(total, SHARDS_PER_GPU as nat);
}

/// Rounding moves a number by at most half of the last digit that is kept.
pub proof fn law_rounding_error(x: nat)
    ensures
        2 * (nearest_double(x) - x) <= pow2(excess_bits(x)),
        2 * (x - nearest_double(x)) <= pow2(excess_bits(x)),
{
    let unit = pow2(excess_bits(x));
    vstd::arithmetic::power2::lemma_pow2_pos(excess_bits(x));
    vstd::arithmetic::div_mod::lemma_fundamental_div_mod(x as int, unit as int);
    let q = x / unit;
    assert((q + 1) * unit == unit * q + unit) by (nonlinear_arith);
    assert(q * unit == unit * q) by (nonlinear_arith);
}

/// The GPU memory that a process uses.
#[derive(Clone, Copy, Debug, PartialEq, Eq, Structural)]
pub enum UsedGpuMemory {
    /// The number of bytes.
    Used(u64),
    /// The number of bytes is not known.
    Unavailable,
}

/// A process that computes on a GPU.
#[derive(Clone, Copy, Debug, PartialEq, Eq, Structural)]
pub struct GpuProcess {
    pub pid: u32,
    pub used_gpu_memory: UsedGpuMemory,
}

/// How much a process used a GPU in a span of time.
#[derive(Clone, Copy, Debug, PartialEq, Eq, Structural)]
pub struct GpuSample {
    pub pid: u32,
    pub sm_util: u32,
}

/// The items of all devices, one device after the other.
pub open spec fn all_items<T>(devices: Seq<Vec<T>>) -> Seq<T> {
    devices.map_values(|items: Vec<T>| items@).flatten()
}

/// The first of the given processes whose GPU memory is not known.
pub open spec fn first_unavailable(processes: Seq<GpuProcess>, pids: Set<u32>) -> Option<u32>
    decreases processes.len(),
{
    if processes.len() == 0 {
        None
    } else {
        match first_unavailable(processes.drop_last(), pids) {
            Some(pid) => Some(pid),
            None => if pids.contains(processes.last().pid)
                && processes.last().used_gpu_memory is Unavailable {
                Some(processes.last().pid)
            } else {
                None
            },
        }
    }
}

/// The GPU memory that one process adds to the use of the given processes.
pub open spec fn process_memory(process: GpuProcess, pids: Set<u32>) -> nat {
    match process.used_gpu_memory {
        UsedGpuMemory::Used(bytes) => if pids.contains(process.pid) {
            bytes as nat
        } else {
            0
        },
        UsedGpuMemory::Unavailable => 0,
    }
}

/// The GPU memory that the given processes use.
pub open spec fn memory_total(processes: Seq<GpuProcess>, pids: Set<u32>) -> nat
    decreases processes.len(),
{
    if processes.len() == 0 {
        0
    } else {
        memory_total(processes.drop_last(), pids) + process_memory(processes.last(), pids)
    }
}

/// What one sample adds to the use of the given processes.
pub open spec fn sample_use(sample: GpuSample, pids: Set<u32>) -> nat {
    if pids.contains(sample.pid) {
        sample.sm_util as nat
    } else {
        0
    }
}

/// How much the given processes used the GPUs.
pub open spec fn utilization_total(samples: Seq<GpuSample>, pids: Set<u32>) -> nat
    decreases samples.len(),
{
    if samples.len() == 0 {
        0
    } else {
        utilization_total(samples.drop_last(), pids) + sample_use(samples.last(), pids)
    }
}

/// The GPU memory of the given processes, or why it is not known.
pub open spec fn memory_usage(processes: Seq<GpuProcess>, pids: Set<u32>) -> Result<nat, Seq<char>> {
    match first_unavailable(processes, pids) {
        Some(pid) => Err("GPU memory usage unavailable for process "@ + decimal(pid as nat)),
        None => Ok(memory_total(processes, pids)),
    }
}

fn pid_set(pids: &Vec<u32>) -> (set: HashSet<u32>)
    ensures
        set@ == pids@.to_set(),
{
    broadcast use vstd::std_specs::hash::group_hash_axioms;

    let mut set: HashSet<u32> = HashSet::new();
    let mut i: usize = 0;
    while i < pids.len()
        invariant
            i <= pids@.len(),
            set@ == pids@.take(i as int).to_set(),
        decreases pids@.len() - i,
    {
        set.insert(pids[i]);
        proof {
            let before = pids@.take(i as int);
            let after = pids@.take(i + 1);
            assert(after =~= before.push(pids@[i as int]));
            assert forall|pid: u32| after.to_set().contains(pid) == before.to_set().insert(
                pids@[i as int],
            ).contains(pid) by {
                if after.contains(pid) {
                    let k = choose|k: int| 0 <= k < after.len() && after[k] == pid;
                    if k < before.len() {
                        assert(before[k] == pid);
                    }
                }
                if before.contains(pid) {
                    let k = choose|k: int| 0 <= k < before.len() && before[k] == pid;
                    assert(after[k] == pid);
                }
                assert(after[before.len() as int] == pids@[i as int]);
            }
            assert(after.to_set() =~= before.to_set().insert(pids@[i as int]));
        }
        i += 1;
    }
    assert(pids@.take(pids@.len() as int) =~= pids@);
    set
}

/// Puts the items of all devices into one list.
fn join_devices<T: Copy>(devices: &Vec<Vec<T>>) -> (out: Vec<T>)
    ensures
        out@ == all_items(devices@),
{
    let mut out: Vec<T> = Vec::new();
    let ghost lists = devices@.map_values(|items: Vec<T>| items@);
    let mut d: usize = 0;
    while d < devices.len()
        invariant
            d <= devices@.len(),
            lists == devices@.map_values(|items: Vec<T>| items@),
            out@ == lists.take(d as int).flatten(),
        decreases devices@.len() - d,
    {
        let items = &devices[d];
        let ghost before = out@;
        let mut i: usize = 0;
        while i < items.len()
            invariant
                i <= items@.len(),
                out@ == before + items@.take(i as int),
            decreases items@.len() - i,
        {
            out.push(items[i]);
            i += 1;
            assert(out@ =~= before + items@.take(i as int));
        }
        proof {
            assert(items@.take(items@.len() as int) =~= items@);
            assert(lists.take(d + 1) =~= lists.take(d as int).push(items@));
            lists.take(d as int).lemma_flatten_push(items@);
        }
        d += 1;
    }
    assert(lists.take(lists.len() as int) =~= lists);
    out
}

/// Finds the first of the given processes whose GPU memory is not known.
fn find_unavailable(processes: &Vec<GpuProcess>, pids: &HashSet<u32>) -> (r: Option<u32>)
    ensures
        r == first_unavailable(processes@, pids@),
{
    broadcast use vstd::std_specs::hash::group_hash_axioms;

    let mut i: usize = 0;
    while i < processes.len()
        invariant
            i <= processes@.len(),
            first_unavailable(processes@.take(i as int), pids@) is None,
        decreases processes@.len() - i,
    {
        let process: GpuProcess = processes[i];
        assert(processes@.take(i + 1).drop_last() =~= processes@.take(i as int));
        match process.used_gpu_memory {
            UsedGpuMemory::Unavailable => {
                if pids.contains(&process.pid) {
                    proof {
                        lemma_first_unavailable(processes@, pids@, i + 1);
                    }
                    return Some(process.pid);
                }
            },
            UsedGpuMemory::Used(_) => {},
        }
        i += 1;
    }
    assert(processes@.take(processes@.len() as int) =~= processes@);
    None
}

proof fn lemma_first_unavailable(processes: Seq<GpuProcess>, pids: Set<u32>, n: int)
    requires
        0 <= n <= processes.len(),
        first_unavailable(processes.take(n), pids) is Some,
    ensures
        first_unavailable(processes, pids) == first_unavailable(processes.take(n), pids),
    decreases processes.len(),
{
    if n == processes.len() {
        assert(processes.take(n) =~= processes);
    } else {
        assert(processes.drop_last().take(n) =~= processes.take(n));
        lemma_first_unavailable(processes.drop_last(), pids, n);
    }
}

/// Adds up the GPU memory of the given processes, or returns `None` if it exceeds 64 bits.
fn add_memory(processes: &Vec<GpuProcess>, pids: &HashSet<u32>) -> (r: Option<u64>)
    ensures
        match r {
            Some(total) => total == memory_total(processes@, pids@),
            None => memory_total(processes@, pids@) > u64::MAX,
        },
{
    broadcast use vstd::std_specs::hash::group_hash_axioms;

    let mut total: u64 = 0;
    let mut i: usize = 0;
    while i < processes.len()
        invariant
            i <= processes@.len(),
            total == memory_total(processes@.take(i as int), pids@),
        decreases processes@.len() - i,
    {
        let process: GpuProcess = processes[i];
        assert(processes@.take(i + 1).drop_last() =~= processes@.take(i as int));
        match process.used_gpu_memory {
            UsedGpuMemory::Used(bytes) => {
                if pids.contains(&process.pid) {
                    match total.checked_add(bytes) {
                        Some(sum) => {
                            total = sum;
                        },
                        None => {
                            proof {
                                let seen = processes@.take(i + 1);
                                law_memory_is_additive(seen, processes@.skip(i + 1), pids@);
                                assert(seen + processes@.skip(i + 1) =~= processes@);
                            }
                            return None;
                        },
                    }
                }
            },
            UsedGpuMemory::Unavailable => {},
        }
        i += 1;
    }
    assert(processes@.take(processes@.len() as int) =~= processes@);
    Some(total)
}

/// Adds up how much the given processes used the GPUs, or returns `None` if it exceeds 32 bits.
fn add_utilization(samples: &Vec<GpuSample>, pids: &HashSet<u32>) -> (r: Option<u32>)
    ensures
        match r {
            Some(total) => total == utilization_total(samples@, pids@),
            None => utilization_total(samples@, pids@) > u32::MAX,
        },
{
    broadcast use vstd::std_specs::hash::group_hash_axioms;

    let mut total: u32 = 0;
    let mut i: usize = 0;
    while i < samples.len()
        invariant
            i <= samples@.len(),
            total == utilization_total(samples@.take(i as int), pids@),
        decreases samples@.len() - i,
    {
        let sample: GpuSample = samples[i];
        assert(samples@.take(i + 1).drop_last() =~= samples@.take(i as int));
        if pids.contains(&sample.pid) {
            match total.checked_add(sample.sm_util) {
                Some(sum) => {
                    total = sum;
                },
                None => {
                    proof {
                        let seen = samples@.take(i + 1);
                        law_utilization_is_additive(seen, samples@.skip(i + 1), pids@);
                        assert(seen + samples@.skip(i + 1) =~= samples@);
                    }
                    return None;
                },
            }
        }
        i += 1;
    }
    assert(samples@.take(samples@.len() as int) =~= samples@);
    Some(total)
}

/// The memory of two lists of processes is the sum of theirs.
pub proof fn law_memory_is_additive(a: Seq<GpuProcess>, b: Seq<GpuProcess>, pids: Set<u32>)
    ensures
        memory_total(a + b, pids) == memory_total(a, pids) + memory_total(b, pids),
    decreases b.len(),
{
    if b.len() == 0 {
        assert(a + b =~= a);
    } else {
        assert((a + b).drop_last() =~= a + b.drop_last());
        law_memory_is_additive(a, b.drop_last(), pids);
    }
}

/// The use in two lists of samples is the sum of theirs.
pub proof fn law_utilization_is_additive(a: Seq<GpuSample>, b: Seq<GpuSample>, pids: Set<u32>)
    ensures
        utilization_total(a + b, pids) == utilization_total(a, pids) + utilization_total(b, pids),
    decreases b.len(),
{
    if b.len() == 0 {
        assert(a + b =~= a);
    } else {
        assert((a + b).drop_last() =~= a + b.drop_last());
        law_utilization_is_additive(a, b.drop_last(), pids);
    }
}

/// The order in which processes are listed does not matter for their memory.
pub proof fn law_memory_ignores_order(a: Seq<GpuProcess>, b: Seq<GpuProcess>, pids: Set<u32>)
    requires
        a.to_multiset() == b.to_multiset(),
    ensures
        memory_total(a, pids) == memory_total(b, pids),
    decreases a.len(),
{
    a.to_multiset_ensures();
    b.to_multiset_ensures();
    if a.len() > 0 {
        let k = lemma_same_last(a, b);
        let (left, right) = (b.take(k), b.skip(k + 1));
        law_memory_ignores_order(a.drop_last(), b.remove(k), pids);
        law_memory_is_additive(left, right, pids);
        law_memory_is_additive(left.push(a.last()), right, pids);
        assert(left.push(a.last()).drop_last() =~= left);
        assert(left + right =~= b.remove(k));
        assert(left.push(a.last()) + right =~= b);
    }
}

/// The order in which samples are listed does not matter for their use.
pub proof fn law_utilization_ignores_order(a: Seq<GpuSample>, b: Seq<GpuSample>, pids: Set<u32>)
    requires
        a.to_multiset() == b.to_multiset(),
    ensures
        utilization_total(a, pids) == utilization_total(b, pids),
    decreases a.len(),
{
    a.to_multiset_ensures();
    b.to_multiset_ensures();
    if a.len() > 0 {
        let k = lemma_same_last(a, b);
        let (left, right) = (b.take(k), b.skip(k + 1));
        law_utilization_ignores_order(a.drop_last(), b.remove(k), pids);
        law_utilization_is_additive(left, right, pids);
        law_utilization_is_additive(left.push(a.last()), right, pids);
        assert(left.push(a.last()).drop_last() =~= left);
        assert(left + right =~= b.remove(k));
        assert(left.push(a.last()) + right =~= b);
    }
}

/// The last item of a list stands somewhere in a list of the same items; without it the two are
/// again lists of the same items.
proof fn lemma_same_last<T>(a: Seq<T>, b: Seq<T>) -> (k: int)
    requires
        a.len() > 0,
        a.to_multiset() == b.to_multiset(),
    ensures
        0 <= k < b.len(),
        b[k] == a.last(),
        a.drop_last().to_multiset() == b.remove(k).to_multiset(),
{
    a.to_multiset_ensures();
    b.to_multiset_ensures();
    assert(a.contains(a.last()));
    assert(a.to_multiset().count(a.last()) > 0);
    assert(b.to_multiset().count(a.last()) > 0);
    assert(b.contains(a.last()));
    let k = choose|k: int| 0 <= k < b.len() && b[k] == a.last();
    assert(a.remove(a.len() - 1) =~= a.drop_last());
    k
}

/// Adds up the GPU memory that the processes of a job use on all devices.
pub fn gpu_memory_usage(pids: &Vec<u32>, devices: &Vec<Vec<GpuProcess>>) -> (r: Result<u64, String>)
    requires
        memory_usage(all_items(devices@), pids@.to_set()) matches Ok(total) ==> total <= u64::MAX,
    ensures
        match r {
            Ok(total) => memory_usage(all_items(devices@), pids@.to_set()) == Ok::<nat, Seq<char>>(
                total as nat,
            ),
            Err(e) => memory_usage(all_items(devices@), pids@.to_set()) == Err::<nat, Seq<char>>(
                e@,
            ),
        },
{
    let set = pid_set(pids);
    let processes = join_devices(devices);
    match find_unavailable(&processes, &set) {
        Some(pid) => {
            let mut e: String = "GPU memory usage unavailable for process ".to_owned();
            e.append(to_decimal(pid as u64).as_str());
            Err(e)
        },
        None => Ok(add_memory(&processes, &set).unwrap()),
    }
}

/// Whether the GPU memory that the processes of a job use can be added up in 64 bits.
pub fn gpu_memory_fits(pids: &Vec<u32>, devices: &Vec<Vec<GpuProcess>>) -> (b: bool)
    ensures
        b == (memory_usage(all_items(devices@), pids@.to_set()) matches Ok(total) ==> total
            <= u64::MAX),
{
    let set = pid_set(pids);
    let processes = join_devices(devices);
    match find_unavailable(&processes, &set) {
        Some(_) => true,
        None => add_memory(&processes, &set).is_some(),
    }
}

/// Adds up how much the processes of a job used all devices.
pub fn gpu_utilization(pids: &Vec<u32>, devices: &Vec<Vec<GpuSample>>) -> (total: u32)
    requires
        utilization_total(all_items(devices@), pids@.to_set()) <= u32::MAX,
    ensures
        total == utilization_total(all_items(devices@), pids@.to_set()),
{
    add_utilization(&join_devices(devices), &pid_set(pids)).unwrap()
}

/// Whether the use that the processes of a job made of all devices can be added up in 32 bits.
pub fn gpu_utilization_fits(pids: &Vec<u32>, devices: &Vec<Vec<GpuSample>>) -> (b: bool)
    ensures
        b == (utilization_total(all_items(devices@), pids@.to_set()) <= u32::MAX),
{
    add_utilization(&join_devices(devices), &pid_set(pids)).is_some()
}

/// How much the given processes used the GPUs and the GPU memory that they use, or the first error:
/// that of listing the processes, that of a process whose memory is not known, or that of taking
/// the samples.
pub open spec fn usage_stats(
    pids: Set<u32>,
    processes: Result<Vec<Vec<GpuProcess>>, String>,
    samples: Result<Vec<Vec<GpuSample>>, String>,
) -> Result<(nat, nat), Seq<char>> {
    match processes {
        Err(e) => Err(e@),
        Ok(devices) => match memory_usage(all_items(devices@), pids) {
            Err(e) => Err(e),
            Ok(bytes) => match samples {
                Err(e) => Err(e@),
                Ok(devices) => Ok((utilization_total(all_items(devices@), pids), bytes)),
            },
        },
    }
}

/// Whether the sums that are computed fit in 64 bits for the memory and in 32 bits for the use.
pub open spec fn stats_fit(
    pids: Set<u32>,
    processes: Result<Vec<Vec<GpuProcess>>, String>,
    samples: Result<Vec<Vec<GpuSample>>, String>,
) -> bool {
    processes matches Ok(devices) ==> memory_usage(all_items(devices@), pids) matches Ok(
        bytes,
    ) ==> {
        &&& bytes <= u64::MAX
        &&& samples matches Ok(devices) ==> utilization_total(all_items(devices@), pids) <= u32::MAX
    }
}

/// How much the processes of a job used all devices, and the GPU memory that they use, given what
/// came of listing the processes of the devices and of taking samples of their use.
pub fn gpu_utilization_stats(
    pids: &Vec<u32>,
    processes: Result<Vec<Vec<GpuProcess>>, String>,
    samples: Result<Vec<Vec<GpuSample>>, String>,
) -> (r: Result<(u32, u64), String>)
    requires
        stats_fit(pids@.to_set(), processes, samples),
    ensures
        match r {
            Ok((used, bytes)) => usage_stats(pids@.to_set(), processes, samples) == Ok::<
                (nat, nat),
                Seq<char>,
            >((used as nat, bytes as nat)),
            Err(e) => usage_stats(pids@.to_set(), processes, samples) == Err::<
                (nat, nat),
                Seq<char>,
            >(e@),
        },
{
    let devices = match processes {
        Ok(devices) => devices,
        Err(e) => return Err(e),
    };
    let bytes: u64 = match gpu_memory_usage(pids, &devices) {
        Ok(bytes) => bytes,
        Err(e) => return Err(e),
    };
    match samples {
        Ok(devices) => Ok((gpu_utilization(pids, &devices), bytes)),
        Err(e) => Err(e),
    }
}

/// Whether the sums that are computed fit in 64 bits for the memory and in 32 bits for the use.
pub fn gpu_stats_fit(
    pids: &Vec<u32>,
    processes: &Result<Vec<Vec<GpuProcess>>, String>,
    samples: &Result<Vec<Vec<GpuSample>>, String>,
) -> (b: bool)
    ensures
        b == stats_fit(pids@.to_set(), *processes, *samples),
{
    let devices = match processes {
        Ok(devices) => devices,
        Err(_) => return true,
    };
    if !gpu_memory_fits(pids, devices) {
        return false;
    }
    if gpu_memory_usage(pids, devices).is_err() {
        return true;
    }
    match samples {
        Ok(devices) => gpu_utilization_fits(pids, devices),
        Err(_) => true,
    }
}

/// The items of one more device follow those of the devices before it, however many there are.
pub proof fn law_each_device_adds_its_items<T>(devices: Seq<Vec<T>>, device: Vec<T>)
    ensures
        all_items(Seq::<Vec<T>>::empty()) == Seq::<T>::empty(),
        all_items(devices.push(device)) == all_items(devices) + device@,
{
    let lists = devices.map_values(|items: Vec<T>| items@);
    let none = Seq::<Vec<T>>::empty().map_values(|items: Vec<T>| items@);
    assert(none =~= Seq::empty());
    assert(none.flatten() =~= Seq::empty());
    assert(devices.push(device).map_values(|items: Vec<T>| items@) =~= lists.push(device@));
    lists.lemma_flatten_push(device@);
}

/// Every item of every device is among the items of all devices.
pub proof fn law_no_item_is_left_out<T>(devices: Seq<Vec<T>>, d: int, i: int)
    requires
        0 <= d < devices.len(),
        0 <= i < devices[d]@.len(),
    ensures
        all_items(devices).contains(devices[d]@[i]),
    decreases devices.len(),
{
    let before = devices.drop_last();
    law_each_device_adds_its_items(before, devices.last());
    assert(before.push(devices.last()) =~= devices);
    let whole = all_items(devices);
    if d < before.len() {
        law_no_item_is_left_out(before, d, i);
        let k = choose|k: int|
            0 <= k < all_items(before).len() && all_items(before)[k] == devices[d]@[i];
        assert(whole[k] == devices[d]@[i]);
    } else {
        assert(whole[all_items(before).len() + i] == devices[d]@[i]);
    }
}

/// One more process adds the bytes that it uses if it is one of the given processes, and nothing
/// otherwise; no processes use nothing.
pub proof fn law_each_process_adds_its_memory(
    processes: Seq<GpuProcess>,
    process: GpuProcess,
    pids: Set<u32>,
)
    ensures
        memory_total(Seq::empty(), pids) == 0,
        pids.contains(process.pid) ==> (process.used_gpu_memory matches UsedGpuMemory::Used(bytes)
            ==> memory_total(processes.push(process), pids) == memory_total(processes, pids)
            + bytes),
        !pids.contains(process.pid) || process.used_gpu_memory is Unavailable ==> memory_total(
            processes.push(process),
            pids,
        ) == memory_total(processes, pids),
{
    assert(processes.push(process).drop_last() =~= processes);
}

/// One more sample adds its use if it is that of one of the given processes, and nothing otherwise;
/// no samples tell of no use.
pub proof fn law_each_sample_adds_its_use(
    samples: Seq<GpuSample>,
    sample: GpuSample,
    pids: Set<u32>,
)
    ensures
        utilization_total(Seq::empty(), pids) == 0,
        pids.contains(sample.pid) ==> utilization_total(samples.push(sample), pids)
            == utilization_total(samples, pids) + sample.sm_util,
        !pids.contains(sample.pid) ==> utilization_total(samples.push(sample), pids)
            == utilization_total(samples, pids),
{
    assert(samples.push(sample).drop_last() =~= samples);
}

/// One more device adds its own memory and its own use to the totals, however many there are.
pub proof fn law_each_device_adds_to_the_totals(
    processes: Seq<Vec<GpuProcess>>,
    of_device: Vec<GpuProcess>,
    samples: Seq<Vec<GpuSample>>,
    from_device: Vec<GpuSample>,
    pids: Set<u32>,
)
    ensures
        memory_total(all_items(processes.push(of_device)), pids) == memory_total(
            all_items(processes),
            pids,
        ) + memory_total(of_device@, pids),
        utilization_total(all_items(samples.push(from_device)), pids) == utilization_total(
            all_items(samples),
            pids,
        ) + utilization_total(from_device@, pids),
{
    law_each_device_adds_its_items(processes, of_device);
    law_each_device_adds_its_items(samples, from_device);
    law_memory_is_additive(all_items(processes), of_device@, pids);
    law_utilization_is_additive(all_items(samples), from_device@, pids);
}

/// The memory is the total if that of every given process is known.
pub proof fn law_known_memory_is_added_up(processes: Seq<GpuProcess>, pids: Set<u32>)
    requires
        forall|i: int|
            0 <= i < processes.len() && pids.contains((#[trigger] processes[i]).pid)
                ==> processes[i].used_gpu_memory is Used,
    ensures
        memory_usage(processes, pids) == Ok::<nat, Seq<char>>(memory_total(processes, pids)),
{
    lemma_all_known(processes, pids);
}

proof fn lemma_all_known(processes: Seq<GpuProcess>, pids: Set<u32>)
    requires
        forall|i: int|
            0 <= i < processes.len() && pids.contains((#[trigger] processes[i]).pid)
                ==> processes[i].used_gpu_memory is Used,
    ensures
        first_unavailable(processes, pids) is None,
    decreases processes.len(),
{
    if processes.len() > 0 {
        let rest = processes.drop_last();
        assert forall|i: int|
            0 <= i < rest.len() && pids.contains(
                (#[trigger] rest[i]).pid,
            ) implies rest[i].used_gpu_memory is Used by {
            assert(rest[i] == processes[i]);
        }
        lemma_all_known(rest, pids);
        assert(processes.last() == processes[processes.len() - 1]);
    }
}

/// The first given process whose memory is not known is reported.
pub proof fn law_the_first_unknown_memory_is_reported(
    processes: Seq<GpuProcess>,
    pids: Set<u32>,
    k: int,
)
    requires
        0 <= k < processes.len(),
        pids.contains(processes[k].pid),
        processes[k].used_gpu_memory is Unavailable,
        forall|i: int|
            0 <= i < k && pids.contains((#[trigger] processes[i]).pid)
                ==> processes[i].used_gpu_memory is Used,
    ensures
        memory_usage(processes, pids) == Err::<nat, Seq<char>>(
            "GPU memory usage unavailable for process "@ + decimal(processes[k].pid as nat),
        ),
{
    let seen = processes.take(k);
    assert forall|i: int|
        0 <= i < seen.len() && pids.contains(
            (#[trigger] seen[i]).pid,
        ) implies seen[i].used_gpu_memory is Used by {
        assert(seen[i] == processes[i]);
    }
    lemma_all_known(seen, pids);
    assert(processes.take(k + 1).drop_last() =~= seen);
    assert(processes.take(k + 1).last() == processes[k]);
    lemma_first_unavailable(processes, pids, k + 1);
}

/// Both sums are returned, the use before the memory, if all can be read; what cannot be read is
/// reported, the list of processes first, then the memory, then the samples.
pub proof fn law_both_sums_are_returned(
    pids: Set<u32>,
    processes: Result<Vec<Vec<GpuProcess>>, String>,
    samples: Result<Vec<Vec<GpuSample>>, String>,
)
    ensures
        processes matches Err(e) ==> usage_stats(pids, processes, samples) == Err::<
            (nat, nat),
            Seq<char>,
        >(e@),
        processes matches Ok(devices) ==> match memory_usage(all_items(devices@), pids) {
            Err(e) => usage_stats(pids, processes, samples) == Err::<(nat, nat), Seq<char>>(e),
            Ok(bytes) => {
                &&& samples matches Err(e) ==> usage_stats(pids, processes, samples) == Err::<
                    (nat, nat),
                    Seq<char>,
                >(e@)
                &&& samples matches Ok(sampled) ==> usage_stats(pids, processes, samples) == Ok::<
                    (nat, nat),
                    Seq<char>,
                >((utilization_total(all_items(sampled@), pids), bytes))
            },
        },
{
}

/// Sums that are returned fit exactly when the use has at most 32 bits and the memory at most 64,
/// and where the memory has at most 64 bits an error always fits.
pub proof fn law_only_large_sums_do_not_fit(
    pids: Set<u32>,
    processes: Result<Vec<Vec<GpuProcess>>, String>,
    samples: Result<Vec<Vec<GpuSample>>, String>,
)
    ensures
        usage_stats(pids, processes, samples) matches Ok((used, bytes)) ==> (stats_fit(
            pids,
            processes,
            samples,
        ) <==> used <= 0xffff_ffff && bytes <= 0xffff_ffff_ffff_ffff),
        processes is Err ==> stats_fit(pids, processes, samples),
        processes matches Ok(devices) ==> match memory_usage(all_items(devices@), pids) {
            Err(_) => stats_fit(pids, processes, samples),
            Ok(bytes) => samples is Err ==> (stats_fit(pids, processes, samples) <==> bytes
                <= 0xffff_ffff_ffff_ffff),
        },
{
}

/// Whether `r` is `x` rounded to a multiple of two to the power of `k`, where `x` has 53 binary
/// digits before the `k` last ones, or no more than 53 and `k` is zero: no multiple is nearer, and
/// of two that are equally near `r` is the even one.
pub open spec fn rounds_at(x: nat, r: nat, k: nat) -> bool {
    &&& x < pow2(53 + k)
    &&& k > 0 ==> pow2((52 + k) as nat) <= x
    &&& r % pow2(k) == 0
    &&& 2 * (r - x) <= pow2(k)
    &&& 2 * (x - r) <= pow2(k)
    &&& 2 * (r - x) == pow2(k) || 2 * (x - r) == pow2(k) ==> (r / pow2(k)) % 2 == 0
}

/// Where 53 binary digits end in a number.
proof fn lemma_excess_bits(x: nat)
    ensures
        x < pow2(53 + excess_bits(x)),
        excess_bits(x) > 0 ==> pow2((52 + excess_bits(x)) as nat) <= x,
    decreases x,
{
    vstd::arithmetic::power2::lemma2_to64_rest();
    assert(pow2(53) == 0x20_0000_0000_0000);
    if x >= FLOAT_LIMIT {
        let k = excess_bits(x / 2);
        lemma_excess_bits(x / 2);
        vstd::arithmetic::power2::lemma_pow2_unfold((53 + k + 1) as nat);
        vstd::arithmetic::power2::lemma_pow2_unfold((52 + k + 1) as nat);
    }
}

/// Rounding to double precision keeps 53 binary digits, to the nearest number and to the even one
/// of two that are equally near.
pub proof fn law_53_digits_are_kept(x: nat)
    ensures
        rounds_at(x, nearest_double(x), excess_bits(x)),
{
    let k = excess_bits(x);
    let unit = pow2(k);
    let r = nearest_double(x);
    lemma_excess_bits(x);
    law_rounding_error(x);
    vstd::arithmetic::power2::lemma_pow2_pos(k);
    vstd::arithmetic::div_mod::lemma_fundamental_div_mod(x as int, unit as int);
    let m = rounded_quotient(x, unit);
    vstd::arithmetic::div_mod::lemma_mod_multiples_basic(m as int, unit as int);
    vstd::arithmetic::div_mod::lemma_div_multiples_vanish(m as int, unit as int);
    assert(unit * m == m * unit) by (nonlinear_arith);
    let q = x / unit;
    assert((q + 1) * unit == unit * q + unit) by (nonlinear_arith);
    assert(q * unit == unit * q) by (nonlinear_arith);
}

/// There is one such number for each `x`.
pub proof fn law_rounding_is_unique(x: nat, r: nat, k: nat)
    requires
        rounds_at(x, r, k),
    ensures
        r == nearest_double(x),
{
    law_53_digits_are_kept(x);
    let j = excess_bits(x);
    let s = nearest_double(x);
    if k < j {
        lemma_pow2_grows(53 + k, (52 + j) as nat);
    }
    if j < k {
        lemma_pow2_grows(53 + j, (52 + k) as nat);
    }
    let unit = pow2(k);
    vstd::arithmetic::power2::lemma_pow2_pos(k);
    vstd::arithmetic::div_mod::lemma_fundamental_div_mod(r as int, unit as int);
    vstd::arithmetic::div_mod::lemma_fundamental_div_mod(s as int, unit as int);
    let (a, b) = (r / unit, s / unit);
    assert(r == unit * a && s == unit * b);
    assert(-unit <= r - s <= unit);
    assert(a - b <= 1 && b - a <= 1) by (nonlinear_arith)
        requires
            unit > 0,
            -unit <= unit * a - unit * b <= unit,
    ;
    if a != b {
        assert(r - s == unit || s - r == unit) by (nonlinear_arith)
            requires
                r == unit * a,
                s == unit * b,
                a - b == 1 || b - a == 1,
        ;
        assert(a % 2 == 0 && b % 2 == 0);
    }
}

proof fn lemma_pow2_grows(a: nat, b: nat)
    requires
        a <= b,
    ensures
        pow2(a) <= pow2(b),
{
    if a < b {
        vstd::arithmetic::power2::lemma_pow2_strictly_increases(a, b);
    }
}

/// The share of the memory is half of what double precision makes of the memory times the shards,
/// cut off to whole bytes and to 64 bits.
pub proof fn law_two_shards_make_up_a_gpu(
    total: nat,
    shards: nat,
    rounded: nat,
    k: nat,
    product: nat,
    j: nat,
)
    requires
        rounds_at(total, rounded, k),
        rounds_at(rounded * shards, product, j),
    ensures
        product / 2 <= 0xffff_ffff_ffff_ffff ==> shard_memory(total, shards) == product / 2,
        product / 2 > 0xffff_ffff_ffff_ffff ==> shard_memory(total, shards)
            == 0xffff_ffff_ffff_ffff,
{
    law_rounding_is_unique(total, rounded, k);
    law_rounding_is_unique(rounded * shards, product, j);
}

} // verus!
