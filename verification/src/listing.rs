//! The process ids of a job, as `scontrol listpids` lists them.

use crate::command::{lossy_text, string_of, CommandOutput};
use crate::number::{parse_unsigned, to_decimal, to_signed_decimal};
use crate::text::{chars_of, contains, same_text, split_lines, split_words};
use vstd::prelude::*;

verus! {

use crate::command::{agrees, views};
use crate::number::{
    decimal, is_numeral_of, law_decimal_is_read_back, law_numerals_are_read, parsed, signed_decimal,
};
use crate::text::{contents, lines, occurs_in, words};

/// What is known of a job's processes.
#[derive(Debug)]
pub enum JobPIDs {
    /// The job has no steps left.
    JobFinished,
    /// The ids of the job's processes, in the order in which they are listed.
    PIDs(Vec<u32>),
}

impl View for JobPIDs {
    type V = Option<Seq<u32>>;

    open spec fn view(&self) -> Option<Seq<u32>> {
        match self {
            JobPIDs::JobFinished => None,
            JobPIDs::PIDs(pids) => Some(pids@),
        }
    }
}

/// A listing that was read: what to tell the user, and what came of it.
#[derive(Debug)]
pub struct Listing {
    /// Remarks for the user, in order.
    pub notices: Vec<String>,
    /// The processes, or why they could not be read.
    pub outcome: Result<JobPIDs, String>,
}

/// Whether the listing says that the job has ended.
pub open spec fn says_finished(out: Seq<char>, err: Seq<char>) -> bool {
    occurs_in(err, "There are no steps for job"@) || occurs_in(out, "There are no steps for job"@)
}

/// An optional exit code as text.
pub open spec fn code_text(code: Option<i32>) -> Seq<char> {
    match code {
        None => "None"@,
        Some(n) => "Some("@ + signed_decimal(n as int) + ")"@,
    }
}

/// The column of the process ids: the position of the first `PID` in the first line.
pub open spec fn pid_column(rows: Seq<Seq<char>>) -> Result<int, Seq<char>> {
    if rows.len() == 0 {
        Err("can't get first line in listpids stdout"@)
    } else {
        match words(rows[0]).index_of_first("PID"@) {
            Some(i) => Ok(i),
            None => Err("can't find PID entry in first line of listpids"@),
        }
    }
}

/// The debug representation that the standard library gives to a list of strings.
pub uninterp spec fn debug_text(items: Seq<Seq<char>>) -> Seq<char>;

/// Formats a list of strings with `{:?}`, whose result depends on the strings alone. What it looks
/// like is not stated.
#[verifier::external_body]
fn debug_list(items: &Vec<String>) -> (s: String)
    ensures
        s@ == debug_text(views(items@)),
{
    format!("{:?}", items)
}

/// The process id in one line of the listing.
pub open spec fn row_pid(line: Seq<char>, column: int) -> Result<u32, Seq<char>> {
    if column >= words(line).len() {
        Err("missing PID column: "@ + debug_text(words(line)))
    } else {
        match parsed(words(line)[column], u32::MAX as nat) {
            Ok(n) => Ok(n as u32),
            Err(e) => Err("error parsing PID: "@ + e.text()),
        }
    }
}

/// The process ids in the lines behind the header, or the error of the first line without one.
pub open spec fn row_pids(rows: Seq<Seq<char>>, column: int) -> Result<Seq<u32>, Seq<char>>
    decreases rows.len(),
{
    if rows.len() == 0 {
        Ok(Seq::empty())
    } else {
        match row_pids(rows.drop_last(), column) {
            Err(e) => Err(e),
            Ok(pids) => match row_pid(rows.last(), column) {
                Err(e) => Err(e),
                Ok(pid) => Ok(pids.push(pid)),
            },
        }
    }
}

/// The processes that a listing names.
pub open spec fn listed(out: Seq<char>, err: Seq<char>, success: bool, code: Option<i32>) -> Result<
    Option<Seq<u32>>,
    Seq<char>,
> {
    if says_finished(out, err) {
        Ok(None)
    } else if !success {
        Err("listpids exited with code "@ + code_text(code))
    } else {
        match pid_column(lines(out)) {
            Err(e) => Err(e),
            Ok(column) => match row_pids(lines(out).skip(1), column) {
                Err(e) => Err(e),
                Ok(pids) => Ok(Some(pids)),
            },
        }
    }
}

/// What the user is told of a listing.
pub open spec fn remarks(out: Seq<char>, err: Seq<char>, success: bool) -> Seq<Seq<char>> {
    if says_finished(out, err) {
        seq!["Job is finished"@]
    } else if !success {
        Seq::empty()
    } else {
        (if err.len() > 0 {
            seq!["listpids produced stderr:\n"@ + err]
        } else {
            Seq::empty()
        }) + (match pid_column(lines(out)) {
            Ok(column) => if column != 0 {
                seq!["WARNING: Expected PID column to be 0, but was "@ + decimal(column as nat)]
            } else {
                Seq::empty()
            },
            Err(_) => Seq::empty(),
        })
    }
}

fn exit_code_text(code: Option<i32>) -> (s: String)
    ensures
        s@ == code_text(code),
{
    match code {
        None => "None".to_owned(),
        Some(n) => {
            let mut s: String = "Some(".to_owned();
            s.append(to_signed_decimal(n).as_str());
            s.append(")");
            s
        },
    }
}

fn strings_of(items: &Vec<Vec<char>>) -> (out: Vec<String>)
    ensures
        views(out@) == contents(items@),
{
    let mut out: Vec<String> = Vec::new();
    let mut i: usize = 0;
    while i < items.len()
        invariant
            i <= items@.len(),
            views(out@) == contents(items@).take(i as int),
        decreases items@.len() - i,
    {
        let ghost before = out@;
        out.push(string_of(&items[i]));
        i += 1;
        proof {
            assert(views(out@) =~= views(before).push(items@[i - 1]@));
            assert(contents(items@).take(i as int) =~= contents(items@).take(i - 1).push(
                items@[i - 1]@,
            ));
        }
    }
    assert(contents(items@).take(items@.len() as int) =~= contents(items@));
    out
}

/// Finds the column of the process ids.
fn find_pid_column(rows: &Vec<Vec<char>>) -> (r: Result<usize, String>)
    ensures
        match r {
            Ok(i) => pid_column(contents(rows@)) == Ok::<int, Seq<char>>(i as int),
            Err(e) => pid_column(contents(rows@)) == Err::<int, Seq<char>>(e@),
        },
{
    if rows.len() == 0 {
        return Err("can't get first line in listpids stdout".to_owned());
    }
    let header = split_words(&rows[0]);
    let wanted = chars_of("PID");
    let ghost entries = words(rows@[0]@);
    proof {
        assert(contents(rows@)[0] == rows@[0]@);
        entries.index_of_first_ensures("PID"@);
    }
    let mut i: usize = 0;
    while i < header.len()
        invariant
            i <= header@.len(),
            contents(header@) == entries,
            wanted@ == "PID"@,
            forall|j: int| 0 <= j < i ==> entries[j] != "PID"@,
            rows@.len() > 0,
            contents(rows@)[0] == rows@[0]@,
            entries == words(rows@[0]@),
            match entries.index_of_first("PID"@) {
                Some(k) => 0 <= k < entries.len() && entries[k] == "PID"@ && forall|j: int|
                    0 <= j < k ==> entries[j] != "PID"@,
                None => forall|j: int| 0 <= j < entries.len() ==> entries[j] != "PID"@,
            },
        decreases header@.len() - i,
    {
        assert(entries[i as int] == header@[i as int]@);
        if same_text(&header[i], &wanted) {
            return Ok(i);
        }
        i += 1;
    }
    Err("can't find PID entry in first line of listpids".to_owned())
}

/// Reads the process id in one line of the listing.
fn read_row(line: &Vec<char>, column: usize) -> (r: Result<u32, String>)
    ensures
        agrees(r, row_pid(line@, column as int)),
{
    let entries = split_words(line);
    if column >= entries.len() {
        let mut e: String = "missing PID column: ".to_owned();
        e.append(debug_list(&strings_of(&entries)).as_str());
        return Err(e);
    }
    assert(contents(entries@)[column as int] == entries@[column as int]@);
    match parse_unsigned(&entries[column], u32::MAX as u64) {
        Ok(n) => Ok(n as u32),
        Err(error) => {
            let mut e: String = "error parsing PID: ".to_owned();
            e.append(error.message().as_str());
            Err(e)
        },
    }
}

/// Reads the process ids in the lines behind the header.
fn read_rows(rows: &Vec<Vec<char>>, column: usize) -> (r: Result<Vec<u32>, String>)
    requires
        rows@.len() > 0,
    ensures
        agrees(r, row_pids(contents(rows@).skip(1), column as int)),
{
    let ghost body = contents(rows@).skip(1);
    let mut pids: Vec<u32> = Vec::new();
    let mut i: usize = 1;
    while i < rows.len()
        invariant
            1 <= i <= rows@.len(),
            body == contents(rows@).skip(1),
            row_pids(body.take(i - 1), column as int) == Ok::<Seq<u32>, Seq<char>>(pids@),
        decreases rows@.len() - i,
    {
        proof {
            assert(body[i - 1] == rows@[i as int]@);
            assert(body.take(i as int).drop_last() =~= body.take(i - 1));
        }
        match read_row(&rows[i], column) {
            Ok(pid) => {
                pids.push(pid);
            },
            Err(e) => {
                proof {
                    lemma_first_error(body, column as int, i as int);
                }
                return Err(e);
            },
        }
        i += 1;
    }
    assert(body.take(body.len() as int) =~= body);
    Ok(pids)
}

/// The error of a line is that of every longer listing.
proof fn lemma_first_error(rows: Seq<Seq<char>>, column: int, n: int)
    requires
        0 <= n <= rows.len(),
        row_pids(rows.take(n), column) is Err,
    ensures
        row_pids(rows, column) == row_pids(rows.take(n), column),
    decreases rows.len(),
{
    if n == rows.len() {
        assert(rows.take(n) =~= rows);
    } else {
        assert(rows.drop_last().take(n) =~= rows.take(n));
        lemma_first_error(rows.drop_last(), column, n);
    }
}

/// A listing is accepted exactly when each line behind the header has a process id. The process ids
/// are then those of the lines, one from each line and in their order.
pub proof fn law_one_pid_per_row(rows: Seq<Seq<char>>, column: int)
    ensures
        row_pids(rows, column) is Ok <==> forall|k: int|
            0 <= k < rows.len() ==> row_pid(#[trigger] rows[k], column) is Ok,
        row_pids(rows, column) matches Ok(pids) ==> {
            &&& pids.len() == rows.len()
            &&& forall|k: int|
                0 <= k < rows.len() ==> row_pid(#[trigger] rows[k], column) == Ok::<u32, Seq<char>>(
                    pids[k],
                )
        },
    decreases rows.len(),
{
    if forall|k: int| 0 <= k < rows.len() ==> row_pid(#[trigger] rows[k], column) is Ok {
        lemma_good_rows(rows, column);
    }
    if rows.len() > 0 {
        law_one_pid_per_row(rows.drop_last(), column);
        if let Ok(pids) = row_pids(rows, column) {
            assert forall|k: int| 0 <= k < rows.len() implies row_pid(#[trigger] rows[k], column)
                == Ok::<u32, Seq<char>>(pids[k]) by {
                if k < rows.len() - 1 {
                    assert(rows.drop_last()[k] == rows[k]);
                }
            }
        }
    }
}

/// A listing in which a line behind the header has no process id is refused with the error of the
/// first such line.
pub proof fn law_first_bad_row_is_reported(rows: Seq<Seq<char>>, column: int, k: int)
    requires
        0 <= k < rows.len(),
        row_pid(rows[k], column) is Err,
        forall|j: int| 0 <= j < k ==> row_pid(#[trigger] rows[j], column) is Ok,
    ensures
        row_pids(rows, column) is Err,
        row_pids(rows, column)->Err_0 == row_pid(rows[k], column)->Err_0,
{
    lemma_good_rows(rows.take(k), column);
    assert(rows.take(k + 1).drop_last() =~= rows.take(k));
    lemma_first_error(rows, column, k + 1);
}

/// Lines that all hold a process id are all read.
proof fn lemma_good_rows(rows: Seq<Seq<char>>, column: int)
    requires
        forall|j: int| 0 <= j < rows.len() ==> row_pid(#[trigger] rows[j], column) is Ok,
    ensures
        row_pids(rows, column) is Ok,
    decreases rows.len(),
{
    if rows.len() > 0 {
        assert forall|j: int| 0 <= j < rows.len() - 1 implies row_pid(
            #[trigger] rows.drop_last()[j],
            column,
        ) is Ok by {
            assert(rows.drop_last()[j] == rows[j]);
        }
        lemma_good_rows(rows.drop_last(), column);
        assert(row_pid(rows[rows.len() - 1], column) is Ok);
    }
}

/// Reads the processes of a job from the text of a listing.
pub fn pids_from_text(stdout: &str, stderr: &str, success: bool, code: Option<i32>) -> (r: Listing)
    ensures
        agrees(r.outcome, listed(stdout@, stderr@, success, code)),
        views(r.notices@) == remarks(stdout@, stderr@, success),
{
    let mut notices: Vec<String> = Vec::new();
    let out = chars_of(stdout);
    let err = chars_of(stderr);
    let finished = chars_of("There are no steps for job");
    if contains(&err, &finished) || contains(&out, &finished) {
        notices.push("Job is finished".to_owned());
        assert(views(notices@) =~= remarks(stdout@, stderr@, success));
        return Listing { notices, outcome: Ok(JobPIDs::JobFinished) };
    }
    if !success {
        let mut e: String = "listpids exited with code ".to_owned();
        e.append(exit_code_text(code).as_str());
        assert(views(notices@) =~= remarks(stdout@, stderr@, success));
        return Listing { notices, outcome: Err(e) };
    }
    if err.len() > 0 {
        let mut m: String = "listpids produced stderr:\n".to_owned();
        m.append(stderr);
        notices.push(m);
    }
    let rows = split_lines(&out);
    let column: usize = match find_pid_column(&rows) {
        Ok(column) => column,
        Err(e) => {
            assert(views(notices@) =~= remarks(stdout@, stderr@, success));
            return Listing { notices, outcome: Err(e) };
        },
    };
    if column != 0 {
        let mut m: String = "WARNING: Expected PID column to be 0, but was ".to_owned();
        m.append(to_decimal(column as u64).as_str());
        notices.push(m);
    }
    assert(views(notices@) =~= remarks(stdout@, stderr@, success));
    match read_rows(&rows, column) {
        Ok(pids) => Listing { notices, outcome: Ok(JobPIDs::PIDs(pids)) },
        Err(e) => Listing { notices, outcome: Err(e) },
    }
}

/// Reads the processes of a job from what `scontrol listpids` wrote.
pub fn get_job_pids(output: &CommandOutput) -> (r: Listing)
    ensures
        agrees(r.outcome, listed(output.out(), output.err(), output.success, output.code)),
        views(r.notices@) == remarks(output.out(), output.err(), output.success),
        vstd::utf8::valid_utf8(output.stdout@) ==> output.out() == vstd::utf8::decode_utf8(
            output.stdout@,
        ),
        vstd::utf8::valid_utf8(output.stderr@) ==> output.err() == vstd::utf8::decode_utf8(
            output.stderr@,
        ),
{
    let stdout = lossy_text(&output.stdout);
    let stderr = lossy_text(&output.stderr);
    pids_from_text(stdout.as_str(), stderr.as_str(), output.success, output.code)
}

/// The processes of a job are what is known of it: none are listed for a finished one.
pub proof fn law_processes_are_seen(pids: Vec<u32>)
    ensures
        JobPIDs::JobFinished@ is None,
        JobPIDs::PIDs(pids)@ == Some(pids@),
{
}

/// The column of the process ids is the first one that is headed `PID`. Without a first line, or
/// without such a heading in it, there is an error.
pub proof fn law_the_first_heading_counts(rows: Seq<Seq<char>>, k: int)
    requires
        0 <= k,
        rows.len() > 0 ==> k <= words(rows[0]).len(),
        rows.len() > 0 ==> forall|i: int| 0 <= i < k ==> words(rows[0])[i] != "PID"@,
    ensures
        rows.len() == 0 ==> pid_column(rows) == Err::<int, Seq<char>>(
            "can't get first line in listpids stdout"@,
        ),
        rows.len() > 0 && k < words(rows[0]).len() && words(rows[0])[k] == "PID"@ ==> pid_column(
            rows,
        ) == Ok::<int, Seq<char>>(k),
        rows.len() > 0 && k == words(rows[0]).len() ==> pid_column(rows) == Err::<int, Seq<char>>(
            "can't find PID entry in first line of listpids"@,
        ),
{
    if rows.len() > 0 {
        words(rows[0]).index_of_first_ensures("PID"@);
    }
}

/// A line gives a process id exactly when the word in the column is a numeral for it, whatever
/// 32-bit number it is. A line that is too short, and a word that is no such numeral, are reported.
pub proof fn law_any_number_of_32_bits_is_a_pid(line: Seq<char>, column: int, pid: u32)
    requires
        0 <= column,
    ensures
        row_pid(line, column) == Ok::<u32, Seq<char>>(pid) <==> column < words(line).len()
            && is_numeral_of(words(line)[column], pid as nat),
        column >= words(line).len() ==> row_pid(line, column) == Err::<u32, Seq<char>>(
            "missing PID column: "@ + debug_text(words(line)),
        ),
        column < words(line).len() ==> (parsed(words(line)[column], 0xffff_ffff) matches Err(e)
            ==> row_pid(line, column) == Err::<u32, Seq<char>>("error parsing PID: "@ + e.text())),
{
    if column < words(line).len() {
        law_numerals_are_read(words(line)[column], pid as nat, u32::MAX as nat);
        if let Ok(n) = parsed(words(line)[column], u32::MAX as nat) {
            law_numerals_are_read(words(line)[column], n, u32::MAX as nat);
        }
    }
}

/// A process id that is written in the column is read back.
pub proof fn law_pid_is_read_back(line: Seq<char>, column: int, pid: u32)
    requires
        0 <= column < words(line).len(),
        words(line)[column] == decimal(pid as nat),
    ensures
        row_pid(line, column) == Ok::<u32, Seq<char>>(pid),
{
    law_decimal_is_read_back(pid as nat, u32::MAX as nat);
}

/// A successful listing whose lines all hold numerals in the column headed `PID` gives exactly
/// those numbers, one for each line.
pub proof fn law_listing_is_read_back(
    out: Seq<char>,
    err: Seq<char>,
    code: Option<i32>,
    column: int,
    pids: Seq<u32>,
)
    requires
        !occurs_in(out, "There are no steps for job"@),
        !occurs_in(err, "There are no steps for job"@),
        lines(out).len() == pids.len() + 1,
        0 <= column < words(lines(out)[0]).len(),
        words(lines(out)[0])[column] == "PID"@,
        forall|i: int| 0 <= i < column ==> words(lines(out)[0])[i] != "PID"@,
        forall|k: int|
            #![trigger pids[k]]
            0 <= k < pids.len() ==> column < words(lines(out)[k + 1]).len() && is_numeral_of(
                words(lines(out)[k + 1])[column],
                pids[k] as nat,
            ),
    ensures
        listed(out, err, true, code) == Ok::<Option<Seq<u32>>, Seq<char>>(Some(pids)),
{
    let rows = lines(out).skip(1);
    law_the_first_heading_counts(lines(out), column);
    assert forall|k: int| 0 <= k < rows.len() implies row_pid(#[trigger] rows[k], column) == Ok::<
        u32,
        Seq<char>,
    >(pids[k]) by {
        assert(rows[k] == lines(out)[k + 1]);
        law_any_number_of_32_bits_is_a_pid(rows[k], column, pids[k]);
    }
    lemma_good_rows(rows, column);
    law_one_pid_per_row(rows, column);
    let read = row_pids(rows, column)->Ok_0;
    assert forall|k: int| 0 <= k < rows.len() implies read[k] == pids[k] by {
        assert(row_pid(rows[k], column) == Ok::<u32, Seq<char>>(read[k]));
    }
    assert(read =~= pids);
}

/// A job is taken to be finished exactly when one of the two streams says that it has no steps.
pub proof fn law_finished_jobs_have_no_steps(
    out: Seq<char>,
    err: Seq<char>,
    success: bool,
    code: Option<i32>,
)
    ensures
        listed(out, err, success, code) == Ok::<Option<Seq<u32>>, Seq<char>>(None) <==> occurs_in(
            out,
            "There are no steps for job"@,
        ) || occurs_in(err, "There are no steps for job"@),
{
}

/// A listing of a job that is not finished fails with the exit code if the command failed, and
/// otherwise with the error of the header, or with that of the first line without a process id.
pub proof fn law_listing_errors(
    out: Seq<char>,
    err: Seq<char>,
    code: i32,
    column: int,
    k: int,
)
    requires
        !occurs_in(out, "There are no steps for job"@),
        !occurs_in(err, "There are no steps for job"@),
    ensures
        listed(out, err, false, None) == Err::<Option<Seq<u32>>, Seq<char>>(
            "listpids exited with code "@ + "None"@,
        ),
        listed(out, err, false, Some(code)) == Err::<Option<Seq<u32>>, Seq<char>>(
            "listpids exited with code "@ + ("Some("@ + signed_decimal(code as int) + ")"@),
        ),
        pid_column(lines(out)) matches Err(e) ==> listed(out, err, true, Some(code)) == Err::<
            Option<Seq<u32>>,
            Seq<char>,
        >(e),
        pid_column(lines(out)) == Ok::<int, Seq<char>>(column) && 1 <= k < lines(out).len()
            && row_pid(lines(out)[k], column) is Err && (forall|j: int|
            1 <= j < k ==> row_pid(#[trigger] lines(out)[j], column) is Ok) ==> listed(
            out,
            err,
            true,
            Some(code),
        ) == Err::<Option<Seq<u32>>, Seq<char>>(row_pid(lines(out)[k], column)->Err_0),
{
    if pid_column(lines(out)) == Ok::<int, Seq<char>>(column) && 1 <= k < lines(out).len()
        && row_pid(lines(out)[k], column) is Err && (forall|j: int|
        1 <= j < k ==> row_pid(#[trigger] lines(out)[j], column) is Ok) {
        let rows = lines(out).skip(1);
        assert(rows[k - 1] == lines(out)[k]);
        assert forall|j: int| 0 <= j < k - 1 implies row_pid(#[trigger] rows[j], column) is Ok by {
            assert(rows[j] == lines(out)[j + 1]);
        }
        law_first_bad_row_is_reported(rows, column, k - 1);
    }
}

/// The user is told that a job is finished, what a successful listing wrote to its standard error,
/// and that the process ids are not in the first column.
pub proof fn law_remarks(out: Seq<char>, err: Seq<char>, success: bool)
    ensures
        says_finished(out, err) <==> occurs_in(out, "There are no steps for job"@) || occurs_in(
            err,
            "There are no steps for job"@,
        ),
        says_finished(out, err) ==> remarks(out, err, success) == seq!["Job is finished"@],
        !says_finished(out, err) && !success ==> remarks(out, err, success) == Seq::<
            Seq<char>,
        >::empty(),
        !says_finished(out, err) && success ==> {
            let told = remarks(out, err, success);
            let passed_on: nat = if err.len() > 0 {
                1
            } else {
                0
            };
            let elsewhere = pid_column(lines(out)) is Ok && pid_column(lines(out))->Ok_0 != 0;
            &&& told.len() == passed_on + (if elsewhere {
                1nat
            } else {
                0
            })
            &&& err.len() > 0 ==> told[0] == "listpids produced stderr:\n"@ + err
            &&& elsewhere ==> told.last() == "WARNING: Expected PID column to be 0, but was "@
                + decimal(pid_column(lines(out))->Ok_0 as nat)
        },
{
}

} // verus!
