use slurm_job_monitor::gpu::{
    gpu_memory_fits, gpu_memory_usage, gpu_stats_fit, gpu_utilization, gpu_utilization_fits,
    gpu_utilization_stats, requested_gpu_memory, GpuProcess, GpuSample, UsedGpuMemory, SHARDS_PER_GPU,
};

fn used(pid: u32, bytes: u64) -> GpuProcess {
    GpuProcess {
        pid,
        used_gpu_memory: UsedGpuMemory::Used(bytes),
    }
}

fn unknown(pid: u32) -> GpuProcess {
    GpuProcess {
        pid,
        used_gpu_memory: UsedGpuMemory::Unavailable,
    }
}

fn sample(pid: u32, sm_util: u32) -> GpuSample {
    GpuSample { pid, sm_util }
}

fn in_floating_point(total: u64, shards: u8) -> u64 {
    let gpus = f32::from(shards) / f32::from(SHARDS_PER_GPU);
    (total as f64 * f64::from(gpus)) as u64
}

#[test]
fn requested_memory_is_that_of_floating_point() {
    let mut totals: Vec<u64> = vec![0, 1, 2, 3, u64::MAX, u64::MAX - 1024, u64::MAX - 1025];
    for bit in 0..64 {
        let power = 1u64 << bit;
        for delta in 0..6 {
            totals.push(power.wrapping_add(delta));
            totals.push(power.wrapping_sub(delta));
            totals.push(power | (power >> 53).wrapping_mul(delta + 1) | delta);
        }
    }
    let mut state: u64 = 0x9e3779b97f4a7c15;
    for _ in 0..2000 {
        state = state.wrapping_mul(6364136223846793005).wrapping_add(1442695040888963407);
        totals.push(state);
        totals.push(state >> 7);
        totals.push(state >> 10);
    }
    for total in totals {
        for shards in [0, 1, 2, 3, 4, 5, 7, 8, 100, 127, 128, 129, 200, 254, 255] {
            assert_eq!(
                requested_gpu_memory(total, shards),
                in_floating_point(total, shards),
                "{} bytes, {} shards",
                total,
                shards
            );
        }
    }
}

#[test]
fn requested_memory_of_half_a_gpu() {
    assert_eq!(requested_gpu_memory(25_757_220_864, 1), 12_878_610_432);
    assert_eq!(requested_gpu_memory(25_757_220_864, 2), 25_757_220_864);
    assert_eq!(requested_gpu_memory(25_757_220_864, 3), 38_635_831_296);
    assert_eq!(requested_gpu_memory(5, 1), 2);
    assert_eq!(requested_gpu_memory(9_007_199_254_740_993, 2), 9_007_199_254_740_992);
    assert_eq!(requested_gpu_memory(u64::MAX, 255), u64::MAX);
}

#[test]
fn memory_of_the_listed_processes() {
    let devices = vec![vec![used(1, 10), used(2, 20)], vec![], vec![used(1, 5), used(3, 7)]];
    assert_eq!(gpu_memory_usage(&vec![1, 3], &devices), Ok(22));
    assert_eq!(gpu_memory_usage(&vec![3, 1, 1, 3], &devices), Ok(22));
    assert_eq!(gpu_memory_usage(&vec![], &devices), Ok(0));
    assert_eq!(gpu_memory_usage(&vec![9], &devices), Ok(0));
    assert_eq!(gpu_memory_usage(&vec![1], &vec![]), Ok(0));
}

#[test]
fn memory_does_not_depend_on_the_order() {
    let a = vec![vec![used(1, 10), used(2, 20), used(1, 3)]];
    let b = vec![vec![used(1, 3)], vec![used(2, 20), used(1, 10)]];
    for pids in [vec![1], vec![2], vec![1, 2]] {
        assert_eq!(gpu_memory_usage(&pids, &a), gpu_memory_usage(&pids, &b));
    }
}

#[test]
fn memory_that_is_not_known() {
    let devices = vec![vec![used(1, u64::MAX), unknown(2)], vec![unknown(4), used(1, 1), unknown(3)]];
    let error = |pid: u32| Err(format!("GPU memory usage unavailable for process {}", pid));
    assert_eq!(gpu_memory_usage(&vec![3, 4, 1], &devices), error(4));
    assert_eq!(gpu_memory_usage(&vec![3], &devices), error(3));
    assert_eq!(gpu_memory_usage(&vec![7], &devices), Ok(0));
    assert!(gpu_memory_fits(&vec![3, 1], &devices));
    assert!(!gpu_memory_fits(&vec![1], &devices));
}

#[test]
fn memory_up_to_the_limit() {
    let devices = vec![vec![used(1, u64::MAX - 1)], vec![used(2, 1), used(3, 2)]];
    assert!(gpu_memory_fits(&vec![1, 2], &devices));
    assert_eq!(gpu_memory_usage(&vec![1, 2], &devices), Ok(u64::MAX));
    assert!(!gpu_memory_fits(&vec![1, 3], &devices));
}

#[test]
fn utilization_of_the_listed_processes() {
    let devices = vec![vec![sample(1, 30), sample(1, 20), sample(2, 9)], vec![sample(2, 1)]];
    assert_eq!(gpu_utilization(&vec![1], &devices), 50);
    assert_eq!(gpu_utilization(&vec![2, 1, 2], &devices), 60);
    assert_eq!(gpu_utilization(&vec![5], &devices), 0);
}

#[test]
fn utilization_up_to_the_limit() {
    let devices = vec![vec![sample(1, u32::MAX)], vec![sample(2, 1)]];
    assert!(gpu_utilization_fits(&vec![1], &devices));
    assert_eq!(gpu_utilization(&vec![1], &devices), u32::MAX);
    assert!(!gpu_utilization_fits(&vec![1, 2], &devices));
}

#[test]
fn sums_over_devices_add_up() {
    let (a, b) = (vec![used(1, 4), used(2, 5)], vec![used(1, 6)]);
    let pids = vec![1, 2];
    let both = gpu_memory_usage(&pids, &vec![a.clone(), b.clone()]).unwrap();
    let one_by_one = [a, b].map(|device| gpu_memory_usage(&pids, &vec![device]).unwrap());
    assert_eq!(both, 15);
    assert_eq!(both, one_by_one[0] + one_by_one[1]);

    let (a, b) = (vec![sample(1, 7)], vec![sample(2, 8), sample(1, 9)]);
    let both = gpu_utilization(&pids, &vec![a.clone(), b.clone()]);
    let one_by_one = [a, b].map(|device| gpu_utilization(&pids, &vec![device]));
    assert_eq!(both, 24);
    assert_eq!(both, one_by_one[0] + one_by_one[1]);
}

#[test]
fn utilization_does_not_depend_on_the_order() {
    let a = vec![vec![sample(1, 7), sample(2, 8)], vec![sample(1, 9)]];
    let b = vec![vec![sample(1, 9), sample(1, 7)], vec![sample(2, 8)]];
    for pids in [vec![1], vec![2], vec![1, 2]] {
        assert_eq!(gpu_utilization(&pids, &a), gpu_utilization(&pids, &b));
    }
}

#[test]
fn both_sums_together() {
    let pids = vec![1];
    let processes = Ok(vec![vec![used(1, 40)], vec![used(1, 2), unknown(2)]]);
    let samples = Ok(vec![vec![sample(1, 30), sample(2, 5)]]);
    assert!(gpu_stats_fit(&pids, &processes, &samples));
    assert_eq!(gpu_utilization_stats(&pids, processes, samples), Ok((30, 42)));
}

#[test]
fn the_first_gpu_error_is_reported() {
    let pids = vec![1];
    let no_processes = || Err("no processes".to_string());
    let no_samples = || Err("no samples".to_string());
    let unavailable = Err("GPU memory usage unavailable for process 1".to_string());
    assert_eq!(
        gpu_utilization_stats(&pids, no_processes(), no_samples()),
        Err("no processes".to_string())
    );
    assert_eq!(
        gpu_utilization_stats(&pids, Ok(vec![vec![unknown(1)]]), no_samples()),
        unavailable
    );
    assert_eq!(
        gpu_utilization_stats(&pids, Ok(vec![vec![used(1, 3)]]), no_samples()),
        Err("no samples".to_string())
    );
}

#[test]
fn sums_that_do_not_fit() {
    let pids = vec![1];
    let much = vec![sample(1, u32::MAX), sample(1, 1)];
    let samples = || Ok(vec![much.clone()]);
    assert!(!gpu_stats_fit(&pids, &Ok(vec![]), &samples()));
    assert!(!gpu_stats_fit(&pids, &Ok(vec![vec![used(1, u64::MAX), used(1, 1)]]), &Ok(vec![])));
    assert!(gpu_stats_fit(&pids, &Ok(vec![vec![unknown(1)]]), &samples()));
    assert!(gpu_stats_fit(&pids, &Err(String::new()), &samples()));
}
