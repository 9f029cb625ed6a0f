use slurm_job_monitor::cgroup::{
    cgroup_path, cpu_stat_path, current_memory_path, get_cgroup_directory, get_cpu_usage,
    get_memory_usage, memory_stat_path,
};

#[test]
fn the_directory_of_a_job() {
    assert_eq!(
        cgroup_path(Some("node7"), 4711),
        Ok("/sys/fs/cgroup/system.slice/node7_slurmstepd.scope/job_4711".to_string())
    );
    assert_eq!(
        cgroup_path(None, 4711),
        Err("failed to get machine hostname".to_string())
    );
}

#[test]
fn a_directory_has_to_exist() {
    assert_eq!(get_cgroup_directory(3, "/d".to_string(), true), Ok("/d".to_string()));
    assert_eq!(
        get_cgroup_directory(3, "/d".to_string(), false),
        Err("cgroup directory for job 3 '/d' does not exist".to_string())
    );
}

#[test]
fn the_files_of_a_job() {
    assert_eq!(memory_stat_path("/d"), "/d/memory.stat");
    assert_eq!(current_memory_path("/d"), "/d/memory.current");
    assert_eq!(cpu_stat_path("/d"), "/d/cpu.stat");
}

const STAT: &str = "anon 100\nfile 200\nactive_file 7\ninactive_file 30\ninactive_file 99\n";

#[test]
fn memory_without_inactive_files() {
    assert_eq!(get_memory_usage(STAT, "1000\n"), Ok(970));
    assert_eq!(get_memory_usage(STAT, " 1 0\t00 \r\n"), Ok(970));
    assert_eq!(get_memory_usage(STAT, "30"), Ok(0));
    assert_eq!(get_memory_usage("inactive_file_bytes +5 x", "18446744073709551615"), Ok(u64::MAX - 5));
}

#[test]
fn more_inactive_files_than_memory() {
    assert_eq!(
        get_memory_usage(STAT, "29\n"),
        Err("Inactive file memory (30) is larger than  current memory(29)".to_string())
    );
}

#[test]
fn memory_that_cannot_be_read() {
    assert_eq!(
        get_memory_usage("", " x 1\n"),
        Err(
            "unable to parse current memory cgroup file contents 'x1' into u64: \
             invalid digit found in string"
                .to_string()
        )
    );
    assert_eq!(
        get_memory_usage(STAT, "\n"),
        Err(
            "unable to parse current memory cgroup file contents '' into u64: \
             cannot parse integer from empty string"
                .to_string()
        )
    );
    assert_eq!(
        get_memory_usage(STAT, "18446744073709551616"),
        Err(
            "unable to parse current memory cgroup file contents '18446744073709551616' into u64: \
             number too large to fit in target type"
                .to_string()
        )
    );
}

#[test]
fn inactive_files_that_cannot_be_read() {
    assert_eq!(
        get_memory_usage("file 1\n inactive_file 2\n", "5"),
        Err("could not find inactive_file line".to_string())
    );
    assert_eq!(
        get_memory_usage("inactive_file\ninactive_file 2", "5"),
        Err("unable to get inactive_file value".to_string())
    );
    assert_eq!(
        get_memory_usage("inactive_file -1", "5"),
        Err("unable to parse inactive_file value: invalid digit found in string".to_string())
    );
}

#[test]
fn processor_time() {
    assert_eq!(get_cpu_usage("usage_usec 123456\nuser_usec 100\n"), Ok(123456));
    assert_eq!(get_cpu_usage("nr_periods 1\nusage_usec\t9\nusage_usec 17 x\n"), Ok(17));
}

#[test]
fn processor_time_that_cannot_be_read() {
    assert_eq!(
        get_cpu_usage("user_usec 100\nusage_usec\n"),
        Err("could not find usage_usec line".to_string())
    );
    assert_eq!(
        get_cpu_usage("usage_usec  \n"),
        Err("unable to get usage_usec value".to_string())
    );
    assert_eq!(
        get_cpu_usage("usage_usec 1.5\n"),
        Err("unable to parse usage_usec: invalid digit found in string".to_string())
    );
}

#[test]
fn numbers_are_read_back() {
    for n in [0, 7, 10, 4096, u64::MAX] {
        assert_eq!(get_cpu_usage(&format!("usage_usec {}\nuser_usec 1\n", n)), Ok(n));
        assert_eq!(get_memory_usage("inactive_file 0\n", &format!("{}\n", n)), Ok(n));
        assert_eq!(
            get_memory_usage(&format!("inactive_file {}\n", n), "18446744073709551615"),
            Ok(u64::MAX - n)
        );
    }
}
