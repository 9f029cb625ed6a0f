use chrono::NaiveDate;
use slurm_job_monitor::calendar::{explain_time, read_time};
use slurm_job_monitor::command::CommandOutput;
use slurm_job_monitor::job::{
    find_fields, get_job_info, job_from_fields, job_info_notices, requested_memory_fits,
    try_get_job_info, JobFields, JobInfo, JobStep,
};
use slurm_job_monitor::pattern::{get_first_regex_group, search, take_first_group, Search};

const CPU_JOB: &str = "JobId=4711 JobName=train me\n   UserId=jane_doe-x(1042) GroupId=staff(100)\n   \
    SubmitTime=2024-02-29T12:34:56 EligibleTime=2024-02-29T12:34:56\n   \
    StartTime=2024-03-01T00:00:01 EndTime=Unknown\n   \
    NumNodes=1 NumCPUs=16 NumTasks=1\n   JOB_GRES=(null)\n     \
    Nodes=node7 CPU_IDs=0-15 Mem=64000 GRES=\n";

const GPU_JOB: &str = "JobId=12 ArrayJobId=10 ArrayTaskId=2 JobName=gpu\n   UserId=bob(7)\n   \
    SubmitTime=1970-01-01T00:00:00\n   StartTime=1970-01-02T00:00:00\n   NumCPUs=1\n   \
    JOB_GRES=gpu:1,shard:3\n     Nodes=n Mem=1 GRES=shard:9\n";

fn output(stdout: &str) -> CommandOutput {
    CommandOutput {
        stdout: stdout.as_bytes().to_vec(),
        stderr: Vec::new(),
        success: true,
        code: Some(0),
    }
}

fn describe(stdout: &str) -> Result<JobStep, String> {
    let raw = output(stdout);
    assert!(requested_memory_fits(&find_fields(stdout), stdout));
    let again = try_get_job_info(&raw).unwrap();
    let step = get_job_info(&raw);
    assert_eq!(format!("{:?}", step), format!("{:?}", again));
    step
}

fn complete(stdout: &str) -> JobInfo {
    match describe(stdout) {
        Ok(JobStep::Complete(job)) => job,
        other => panic!("{:?}", other),
    }
}

fn refused(stdout: &str) -> String {
    match describe(stdout) {
        Err(e) => e,
        other => panic!("{:?}", other),
    }
}

#[test]
fn a_job_without_gpu() {
    let job = complete(CPU_JOB);
    assert_eq!(job.job_id, 4711);
    assert_eq!(job.job_name, "train");
    assert_eq!(job.user_name, "jane_doe-x");
    assert_eq!(job.user_id, 1042);
    assert_eq!(job.submit_time, 1709210096);
    assert_eq!(job.start_time, 1709251201);
    assert!(!job.is_array_task);
    assert_eq!(job.array_job_id, None);
    assert_eq!(job.array_task_id, None);
    assert_eq!(job.requested_cpus, 16);
    assert_eq!(job.requested_memory, 64_000_000_000);
    assert!(!job.is_gpu_job);
    assert_eq!(job.requested_gpu_shards, 0);
    assert_eq!((job.requested_gpus.shards, job.requested_gpus.shards_per_gpu), (0, 2));
    assert_eq!(job.requested_gpu_memory, 0);
}

#[test]
fn a_job_with_gpu_in_an_array() {
    let pending = match describe(GPU_JOB) {
        Ok(JobStep::NeedsGpuMemory(pending)) => pending,
        other => panic!("{:?}", other),
    };
    assert_eq!(pending.gpu_index(), 0);
    let job = pending.complete(1001);
    assert_eq!(job.job_id, 12);
    assert_eq!(job.job_name, "gpu");
    assert_eq!(job.user_name, "bob");
    assert_eq!(job.user_id, 7);
    assert_eq!((job.submit_time, job.start_time), (0, 86400));
    assert!(job.is_array_task);
    assert_eq!(job.array_job_id, Some(10));
    assert_eq!(job.array_task_id, Some(2));
    assert_eq!(job.requested_cpus, 1);
    assert_eq!(job.requested_memory, 1_000_000);
    assert!(job.is_gpu_job);
    assert_eq!(job.requested_gpu_shards, 3);
    assert_eq!((job.requested_gpus.shards, job.requested_gpus.shards_per_gpu), (3, 2));
    assert_eq!(job.requested_gpu_memory, 1501);
}

const SHARD_JOB: &str = "JobId=7 JobName=a\nUserId=bob(5)\nNumCPUs=2\nMem=4\n\
    SubmitTime=1970-01-01T00:00:10\nStartTime=1970-01-01T00:01:00\nJOB_GRES=shard:1\n";

fn finished(total: Result<u64, String>) -> Result<JobInfo, String> {
    match describe(SHARD_JOB) {
        Ok(JobStep::NeedsGpuMemory(pending)) => pending.finish(total),
        other => panic!("{:?}", other),
    }
}

#[test]
fn gpu_memory_that_cannot_be_had() {
    assert_eq!(finished(Err("no NVML".to_string())).unwrap_err(), "no NVML");
}

#[test]
fn gpu_memory_that_can_be_had() {
    let job = finished(Ok(1001)).unwrap();
    assert_eq!((job.job_id, job.user_id, job.requested_cpus), (7, 5, 2));
    assert_eq!((job.submit_time, job.start_time), (10, 60));
    assert_eq!(job.requested_memory, 4_000_000);
    assert!(job.is_gpu_job);
    assert_eq!(job.requested_gpu_shards, 1);
    assert_eq!(job.requested_gpu_memory, 500);
}

fn no_match(regex: &str, haystack: &str) -> String {
    format!("failed to match regex '{}' in haystack: '{}'", regex, haystack)
}

#[test]
fn fields_that_are_missing() {
    for (field, regex) in [
        ("UserId=", r"UserId=([a-z_\-]+)\("),
        ("NumCPUs=", r"NumCPUs=(\d+)"),
        ("Mem=", r"Mem=(\d+)"),
        ("SubmitTime=", r"SubmitTime=(\d{4}-\d{2}-\d{2}T\d{2}:\d{2}:\d{2})"),
        ("StartTime=", r"StartTime=(\d{4}-\d{2}-\d{2}T\d{2}:\d{2}:\d{2})"),
        ("JobName=", r"JobName=(.+?)\s"),
    ] {
        let text = CPU_JOB.replace(field, "None:");
        assert_eq!(refused(&text), no_match(regex, &text));
    }
    let text = CPU_JOB.replace("JobId=", "None:");
    assert_eq!(refused(&text), no_match(r"JobId=(\d+)", &text));
    let text = CPU_JOB.replace("(1042)", "(me)");
    assert_eq!(refused(&text), no_match(r"UserId=[a-z_\-]+?\((\d+)\)", &text));
    let text = GPU_JOB.replace("ArrayJobId=10", "ArrayJobId=x");
    assert_eq!(refused(&text), no_match(r"ArrayJobId=(\d+)", &text));
    let text = GPU_JOB.replace("ArrayTaskId=2", "ArrayTaskId=x");
    assert_eq!(refused(&text), no_match(r"ArrayTaskId=(\d+)", &text));
    let text = GPU_JOB.replace("shard:", "shards:");
    assert_eq!(refused(&text), no_match(r"JOB_GRES=.*?shard:(\d+)", &text));
}

#[test]
fn a_missing_resource_line() {
    let text = CPU_JOB.replace("JOB_GRES", "GRES");
    assert_eq!(refused(&text), format!("could not find JOB_GRES line in '{}'", text));
}

#[test]
fn numbers_that_are_too_large() {
    let reason = "number too large to fit in target type";
    for (text, field) in [
        (CPU_JOB.replace("1042", "99999999999999999999"), "user_id"),
        (CPU_JOB.replace("4711", "4294967296"), "job_id"),
        (GPU_JOB.replace("ArrayJobId=10", "ArrayJobId=4294967296"), "array_job_id"),
        (GPU_JOB.replace("ArrayTaskId=2", "ArrayTaskId=4294967296"), "array_task_id"),
        (CPU_JOB.replace("NumCPUs=16", "NumCPUs=65536"), "requested_cpus"),
        (CPU_JOB.replace("64000", "18446744073709551616"), "requested_memory"),
        (GPU_JOB.replace("shard:3", "shard:256"), "requested_gpu_shards"),
    ] {
        assert_eq!(refused(&text), format!("failed to parse {}: {}", field, reason));
    }
}

#[test]
fn digits_of_another_script() {
    let text = CPU_JOB.replace("NumCPUs=16", "NumCPUs=\u{661}\u{666}");
    assert_eq!(
        refused(&text),
        "failed to parse requested_cpus: invalid digit found in string"
    );
}

#[test]
fn dates_that_do_not_exist() {
    let text = CPU_JOB.replace("2024-02-29T12:34:56", "2023-02-29T12:34:56");
    assert_eq!(
        refused(&text),
        "unable to parse date '2023-02-29T12:34:56': input is out of range"
    );
    let text = CPU_JOB.replace("2024-03-01T00:00:01", "2024-03-01T24:00:01");
    assert_eq!(
        refused(&text),
        "unable to parse date '2024-03-01T24:00:01': input is out of range"
    );
}

#[test]
fn the_first_error_is_reported() {
    let text = CPU_JOB
        .replace("4711", "4294967296")
        .replace("NumCPUs=16", "NumCPUs=65536")
        .replace("JOB_GRES", "GRES");
    assert_eq!(
        refused(&text),
        "failed to parse job_id: number too large to fit in target type"
    );
    let text = CPU_JOB.replace("NumCPUs=16", "NumCPUs=65536").replace("JOB_GRES", "GRES");
    assert_eq!(
        refused(&text),
        "failed to parse requested_cpus: number too large to fit in target type"
    );
}

#[test]
fn memory_that_does_not_fit() {
    let limit = u64::MAX / 1_000_000;
    let text = CPU_JOB.replace("64000", &limit.to_string());
    assert_eq!(complete(&text).requested_memory, limit * 1_000_000);
    let text = CPU_JOB.replace("64000", &(limit + 1).to_string());
    assert!(try_get_job_info(&output(&text)).is_none());
    assert!(!requested_memory_fits(&find_fields(&text), &text));
    let text = text.replace("NumCPUs=16", "");
    assert!(matches!(try_get_job_info(&output(&text)), Some(Err(_))));
}

#[test]
fn notices_of_the_job_description() {
    let mut raw = output(CPU_JOB);
    assert!(job_info_notices(&raw).is_empty());
    raw.stderr = b"slow".to_vec();
    assert_eq!(job_info_notices(&raw), vec!["scontrol show produced stderr:\nslow"]);
}

fn found(s: &str) -> Result<String, String> {
    Ok(s.to_string())
}

fn fields() -> JobFields {
    JobFields {
        user_name: found("u"),
        user_id: found("1"),
        job_id: found("2"),
        job_name: found("j"),
        array_job_id: Err("no array job".to_string()),
        array_task_id: Err("no array task".to_string()),
        submit_time: Ok(3),
        start_time: Ok(4),
        cpus: found("5"),
        memory: found("6"),
        gpu_shards: Err("no shards".to_string()),
    }
}

#[test]
fn fields_that_are_not_needed() {
    match job_from_fields(fields(), "JOB_GRES=\n") {
        Ok(JobStep::Complete(job)) => {
            assert_eq!((job.user_id, job.job_id, job.requested_cpus), (1, 2, 5));
            assert_eq!((job.submit_time, job.start_time), (3, 4));
            assert_eq!(job.requested_memory, 6_000_000);
        }
        other => panic!("{:?}", other),
    }
    let error = |stdout: &str| job_from_fields(fields(), stdout).unwrap_err();
    assert_eq!(error("ArrayTaskId JOB_GRES"), "no array job");
    assert_eq!(error("JOB_GRES=shard:1"), "no shards");
    assert_eq!(error("\n"), "could not find JOB_GRES line in '\n'");
}

#[test]
fn only_the_first_resource_line_counts() {
    match job_from_fields(fields(), "a\nJOB_GRES=x\nJOB_GRES=shard:1\n") {
        Ok(JobStep::Complete(job)) => assert!(!job.is_gpu_job),
        other => panic!("{:?}", other),
    }
}

#[test]
fn the_first_group_of_a_pattern() {
    assert_eq!(get_first_regex_group(r"a(b+)c", "xxabbcabc"), found("bb"));
    assert_eq!(get_first_regex_group(r"a(b+)c(d)", "abcd"), found("b"));
}

#[test]
fn a_pattern_that_does_not_match() {
    assert_eq!(get_first_regex_group("a(b)", "ba"), Err(no_match("a(b)", "ba")));
}

#[test]
fn a_pattern_that_is_refused() {
    let reason = regex::Regex::new("a(b").unwrap_err().to_string();
    assert_eq!(
        get_first_regex_group("a(b", "ab"),
        Err(format!("failed to build regex: {}", reason))
    );
}

#[test]
fn a_group_that_takes_no_part() {
    for pattern in ["ab", "a(x)?b"] {
        let captures = regex::Regex::new(pattern).unwrap();
        let captures = captures.captures("zab").unwrap();
        assert_eq!(
            get_first_regex_group(pattern, "zab"),
            Err(format!(
                "no groups captured ({:?}) for regex '{}' in haystack 'zab'",
                captures, pattern
            ))
        );
    }
}

#[test]
fn all_groups_of_a_search() {
    match search("(a)(x)?(c)", "bac") {
        Search::Found { groups, .. } => assert_eq!(
            groups,
            vec![
                Some("ac".to_string()),
                Some("a".to_string()),
                None,
                Some("c".to_string())
            ]
        ),
        other => panic!("{:?}", other),
    }
    let search = Search::Found {
        groups: vec![Some("whole".to_string())],
        shown: "shown".to_string(),
    };
    assert_eq!(
        take_first_group("p", "h", &search),
        Err("no groups captured (shown) for regex 'p' in haystack 'h'".to_string())
    );
    assert_eq!(
        take_first_group("p", "h", &Search::Refused("why".to_string())),
        Err("failed to build regex: why".to_string())
    );
}

fn days(year: i64, month: i64, day: i64) -> i64 {
    let y = year - 1;
    let mut n = 365 * y + y.div_euclid(4) - y.div_euclid(100) + y.div_euclid(400) - 719162;
    let leap = year % 4 == 0 && (year % 100 != 0 || year % 400 == 0);
    let lengths = [31, if leap { 29 } else { 28 }, 31, 30, 31, 30, 31, 31, 30, 31, 30, 31];
    for m in 1..month {
        n += lengths[(m - 1) as usize];
    }
    n + day - 1
}

#[test]
fn times_since_the_epoch() {
    assert_eq!(read_time("1970-01-01T00:00:00"), Ok(0));
    assert_eq!(read_time("2001-09-09T01:46:40"), Ok(1_000_000_000));
    assert_eq!(read_time("1969-12-31T23:59:59"), Ok(-1));
    assert_eq!(read_time("0000-01-01T00:00:00"), Ok(days(0, 1, 1) * 86400));
    assert_eq!(read_time("9999-12-31T23:59:60"), Ok((days(9999, 12, 31) + 1) * 86400 - 1));
    assert_eq!(read_time("2024-05-06T07:08:60"), Ok(days(2024, 5, 6) * 86400 + 7 * 3600 + 8 * 60 + 59));
}

#[test]
fn every_date_of_some_years() {
    for year in [0, 1, 4, 99, 100, 400, 1600, 1899, 1900, 1969, 1970, 2000, 2023, 2024, 2100, 9999] {
        for month in 0..=13 {
            for day in 0..=32 {
                let text = format!("{:04}-{:02}-{:02}T05:06:07", year, month, day);
                let seconds = 5 * 3600 + 6 * 60 + 7;
                if NaiveDate::from_ymd_opt(year, month, day).is_some() {
                    let number = days(year as i64, month as i64, day as i64);
                    assert_eq!(read_time(&text), Ok(number * 86400 + seconds));
                } else {
                    assert_eq!(
                        read_time(&text),
                        Err(format!("unable to parse date '{}': input is out of range", text))
                    );
                }
            }
        }
    }
}

#[test]
fn times_of_day_that_do_not_exist() {
    for text in ["2024-01-01T24:00:00", "2024-01-01T00:60:00", "2024-01-01T00:00:61"] {
        assert_eq!(
            read_time(text),
            Err(format!("unable to parse date '{}': input is out of range", text))
        );
    }
}

#[test]
fn texts_that_are_no_times() {
    for text in ["", "2024-01-01", "2024-01-01T00:00:00Z", "\u{662}024-01-01T00:00:00"] {
        let reason = chrono::NaiveDateTime::parse_from_str(text, "%Y-%m-%dT%H:%M:%S").unwrap_err();
        assert_eq!(
            read_time(text),
            Err(format!("unable to parse date '{}': {}", text, reason))
        );
    }
}

#[test]
fn errors_of_the_date_parser() {
    assert_eq!(explain_time("x", Ok(5)), Ok(5));
    assert_eq!(
        explain_time("x", Err("why".to_string())),
        Err("unable to parse date 'x': why".to_string())
    );
}
