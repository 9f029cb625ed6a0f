use slurm_job_monitor::job::{GpuCount, JobInfo};
use slurm_job_monitor::listing::JobPIDs;
use slurm_job_monitor::monitor::{
    usage_header, usage_record, usage_stats_path, Action, Event, JobResourceUsage, Monitor,
};

fn usage(cpu: u64, memory: u64, gpu: u32, gpu_memory: u64) -> JobResourceUsage {
    JobResourceUsage {
        cpu_utilization: cpu,
        memory,
        gpu_utilization: gpu,
        gpu_memory,
    }
}

const JOB: u32 = 4711;

fn job(is_gpu_job: bool) -> JobInfo {
    JobInfo {
        job_id: JOB,
        job_name: "train".to_string(),
        user_name: "jane".to_string(),
        user_id: 1042,
        submit_time: 1,
        start_time: 2,
        is_array_task: false,
        array_job_id: None,
        array_task_id: None,
        requested_cpus: 3,
        requested_memory: 4,
        is_gpu_job,
        requested_gpu_shards: 0,
        requested_gpus: GpuCount { shards: 0, shards_per_gpu: 2 },
        requested_gpu_memory: 0,
    }
}

fn step(monitor: Monitor, event: Event) -> (Monitor, Action) {
    assert!(monitor.awaits(&event));
    monitor.step(event)
}

fn started(is_gpu_job: bool, pids: Vec<u32>) -> Monitor {
    let (monitor, action) = Monitor::new(&job(is_gpu_job));
    assert!(matches!(action, Action::ListPids { job_id: JOB }));
    let (monitor, action) = step(monitor, Event::Pids(Ok(JobPIDs::PIDs(pids))));
    assert!(matches!(action, Action::TakeTime));
    let (monitor, action) = step(monitor, Event::Time("1.5".to_string()));
    assert!(matches!(action, Action::ReadCpu { job_id: JOB }));
    monitor
}

fn finish_round(monitor: Monitor, action: Action, wanted: JobResourceUsage) {
    match action {
        Action::Write { timestamp, usage } => {
            assert_eq!(timestamp, "1.5");
            assert_eq!(usage, wanted);
        }
        other => panic!("{:?}", other),
    }
    let (monitor, action) = step(monitor, Event::Written(Ok(())));
    assert!(matches!(action, Action::Pause));
    let (monitor, action) = step(monitor, Event::PauseOver);
    assert!(matches!(action, Action::ListPids { job_id: JOB }));
    let (monitor, action) = step(monitor, Event::Pids(Ok(JobPIDs::JobFinished)));
    assert!(matches!(action, Action::Stop(Ok(()))));
    assert!(!monitor.awaits(&Event::PauseOver));
}

#[test]
fn a_round_without_gpu() {
    let monitor = started(false, vec![1, 2]);
    let (monitor, action) = step(monitor, Event::Cpu(Ok(10)));
    assert!(matches!(action, Action::ReadMemory { job_id: JOB }));
    let (monitor, action) = step(monitor, Event::Memory(Ok(20)));
    finish_round(monitor, action, usage(10, 20, 0, 0));
}

#[test]
fn a_round_with_gpu() {
    let monitor = started(true, vec![1, 2]);
    let (monitor, action) = step(monitor, Event::Cpu(Ok(10)));
    assert!(matches!(action, Action::ReadMemory { job_id: JOB }));
    let (monitor, action) = step(monitor, Event::Memory(Ok(20)));
    match action {
        Action::ReadGpu { pids } => assert_eq!(pids, vec![1, 2]),
        other => panic!("{:?}", other),
    }
    let (monitor, action) = step(monitor, Event::Gpu(Ok((30, 40))));
    finish_round(monitor, action, usage(10, 20, 30, 40));
}

fn stops_with(monitor: Monitor, event: Event, error: &str) {
    let (_, action) = step(monitor, event);
    match action {
        Action::Stop(Err(e)) => assert_eq!(e, error),
        other => panic!("{:?}", other),
    }
}

#[test]
fn errors_stop_the_monitor() {
    let e = || "broken".to_string();
    stops_with(Monitor::new(&job(false)).0, Event::Pids(Err(e())), "broken");
    stops_with(started(false, vec![]), Event::Cpu(Err(e())), "broken");
    let monitor = step(started(false, vec![]), Event::Cpu(Ok(1))).0;
    stops_with(monitor, Event::Memory(Err(e())), "broken");
    let monitor = step(started(true, vec![]), Event::Cpu(Ok(1))).0;
    let monitor = step(monitor, Event::Memory(Ok(1))).0;
    stops_with(monitor, Event::Gpu(Err(e())), "broken");
    let monitor = step(started(false, vec![]), Event::Cpu(Ok(1))).0;
    let monitor = step(monitor, Event::Memory(Ok(1))).0;
    stops_with(monitor, Event::Written(Err(e())), "broken");
}

#[test]
fn only_the_awaited_event_is_taken() {
    let monitor = started(false, vec![]);
    assert!(monitor.awaits(&Event::Cpu(Ok(1))));
    assert!(!monitor.awaits(&Event::Memory(Ok(1))));
    assert!(!monitor.awaits(&Event::Gpu(Ok((1, 1)))));
    assert!(!monitor.awaits(&Event::Time(String::new())));
    assert!(!monitor.awaits(&Event::Written(Ok(()))));
    assert!(!monitor.awaits(&Event::Pids(Ok(JobPIDs::JobFinished))));
}

#[test]
fn a_record_and_its_header() {
    assert_eq!(
        usage_header(),
        vec!["timestamp", "cpu_usage", "memory", "gpu_usage", "gpu_memory"]
    );
    assert_eq!(
        usage_record("1.25".to_string(), &usage(1, 22, 333, u64::MAX)),
        vec!["1.25", "1", "22", "333", "18446744073709551615"]
    );
    assert_eq!(usage_header().len(), usage_record(String::new(), &usage(0, 0, 0, 0)).len());
}

#[test]
fn the_file_of_records() {
    assert_eq!(usage_stats_path("out"), "out/usage_stats.csv");
}

#[test]
fn one_record_for_each_listing() {
    let (mut monitor, mut action) = Monitor::new(&job(false));
    let (mut listings, mut records) = (0, 0);
    loop {
        let event = match action {
            Action::ListPids { .. } if listings == 5 => Event::Pids(Ok(JobPIDs::JobFinished)),
            Action::ListPids { job_id } => {
                assert_eq!(job_id, JOB);
                listings += 1;
                Event::Pids(Ok(JobPIDs::PIDs(vec![listings])))
            }
            Action::TakeTime => Event::Time(listings.to_string()),
            Action::ReadCpu { job_id: JOB } => Event::Cpu(Ok(1)),
            Action::ReadMemory { job_id: JOB } => Event::Memory(Ok(2)),
            Action::ReadCpu { .. } | Action::ReadMemory { .. } => panic!("another job is read"),
            Action::ReadGpu { .. } => panic!("the job uses no GPU"),
            Action::Write { timestamp, usage: written } => {
                records += 1;
                assert_eq!(timestamp, records.to_string());
                assert_eq!(written, usage(1, 2, 0, 0));
                Event::Written(Ok(()))
            }
            Action::Pause => Event::PauseOver,
            Action::Stop(result) => {
                assert_eq!(result, Ok(()));
                break;
            }
        };
        (monitor, action) = step(monitor, event);
    }
    assert_eq!((listings, records), (5, 5));
}

#[test]
fn records_tell_usages_apart() {
    let record = |u: JobResourceUsage| usage_record("1".to_string(), &u);
    let all = [usage(1, 2, 3, 4), usage(11, 2, 3, 4), usage(1, 22, 3, 4), usage(1, 2, 3, 44)];
    for a in all {
        for b in all {
            assert_eq!(record(a) == record(b), a == b);
        }
    }
}
