use slurm_job_monitor::command::CommandOutput;
use slurm_job_monitor::listing::{get_job_pids, pids_from_text, JobPIDs, Listing};

fn pids(listing: Listing) -> Vec<u32> {
    match listing.outcome {
        Ok(JobPIDs::PIDs(pids)) => pids,
        other => panic!("{:?}", other),
    }
}

fn finished(listing: &Listing) -> bool {
    matches!(listing.outcome, Ok(JobPIDs::JobFinished))
}

fn error(listing: Listing) -> String {
    match listing.outcome {
        Err(e) => e,
        other => panic!("{:?}", other),
    }
}

const LISTING: &str = "PID      JOBID    STEPID   LOCALID GLOBALID\n\
    4711     99       batch    0       0\n\
    -1       99       extern   0       0\n";

const GOOD: &str = "PID      JOBID    STEPID   LOCALID GLOBALID\n\
    4711     99       batch    0       0\n\
    12       99       0        -       -\n";

#[test]
fn pids_in_the_first_column() {
    let listing = pids_from_text(GOOD, "", true, Some(0));
    assert!(listing.notices.is_empty());
    assert_eq!(pids(listing), vec![4711, 12]);
}

#[test]
fn a_header_alone_lists_nothing() {
    assert_eq!(pids(pids_from_text("PID\n", "", true, Some(0))), Vec::<u32>::new());
}

#[test]
fn pids_in_another_column() {
    let listing = pids_from_text("JOBID PID PID\n1 5 6\n2 7 8", "", true, Some(0));
    assert_eq!(
        listing.notices,
        vec!["WARNING: Expected PID column to be 0, but was 1"]
    );
    assert_eq!(pids(listing), vec![5, 7]);
}

#[test]
fn a_finished_job() {
    let message = "error: There are no steps for job 99\n";
    for (out, err, success) in [
        (message, "", true),
        ("", message, false),
        (GOOD, message, true),
        (message, message, false),
    ] {
        let listing = pids_from_text(out, err, success, Some(1));
        assert!(finished(&listing));
        assert_eq!(listing.notices, vec!["Job is finished"]);
    }
}

#[test]
fn a_failed_listing() {
    let listing = pids_from_text(GOOD, "oops", false, Some(3));
    assert!(listing.notices.is_empty());
    assert_eq!(error(listing), "listpids exited with code Some(3)");
    assert_eq!(
        error(pids_from_text("", "", false, None)),
        format!("listpids exited with code {:?}", None::<i32>)
    );
    assert_eq!(
        error(pids_from_text("", "", false, Some(-9))),
        format!("listpids exited with code {:?}", Some(-9))
    );
}

#[test]
fn standard_error_is_passed_on() {
    let listing = pids_from_text(GOOD, "slow\nnode", true, Some(0));
    assert_eq!(listing.notices, vec!["listpids produced stderr:\nslow\nnode"]);
    assert_eq!(pids(listing), vec![4711, 12]);
    let listing = pids_from_text("X PID\na 3", "slow", true, Some(0));
    assert_eq!(
        listing.notices,
        vec![
            "listpids produced stderr:\nslow",
            "WARNING: Expected PID column to be 0, but was 1"
        ]
    );
}

#[test]
fn an_empty_listing() {
    assert_eq!(
        error(pids_from_text("", "", true, Some(0))),
        "can't get first line in listpids stdout"
    );
}

#[test]
fn a_listing_without_the_column() {
    assert_eq!(
        error(pids_from_text("pid JOBID\n1 2\n", "", true, Some(0))),
        "can't find PID entry in first line of listpids"
    );
}

#[test]
fn a_line_without_the_column() {
    assert_eq!(
        error(pids_from_text("PID JOBID\n\n5 6\nx", "", true, Some(0))),
        "missing PID column: []"
    );
    let words = vec!["a\"b", "\u{e9}\\"];
    assert_eq!(
        error(pids_from_text("A B PID\n1 2 3\na\"b \u{e9}\\\nx y z", "", true, Some(0))),
        format!("missing PID column: {:?}", words)
    );
}

#[test]
fn a_line_without_a_number() {
    assert_eq!(
        error(pids_from_text(LISTING, "", true, Some(0))),
        "error parsing PID: invalid digit found in string"
    );
    assert_eq!(
        error(pids_from_text("PID\n1\n4294967296\nx", "", true, Some(0))),
        "error parsing PID: number too large to fit in target type"
    );
}

#[test]
fn raw_output_is_decoded() {
    let output = CommandOutput {
        stdout: b"PID\n8\n".to_vec(),
        stderr: b"bad \xff byte".to_vec(),
        success: true,
        code: Some(0),
    };
    let listing = get_job_pids(&output);
    assert_eq!(
        listing.notices,
        vec!["listpids produced stderr:\nbad \u{fffd} byte"]
    );
    assert_eq!(pids(listing), vec![8]);

    let output = CommandOutput {
        stdout: b"PID\n\xc3\xa9\n".to_vec(),
        stderr: Vec::new(),
        success: true,
        code: Some(0),
    };
    assert_eq!(
        error(get_job_pids(&output)),
        "error parsing PID: invalid digit found in string"
    );
}
