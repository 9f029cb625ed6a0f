//! The control group of a job: where it is, and what its files say of the job's use of memory and
//! processor time.

use crate::command::string_of;
use crate::number::{parse_unsigned, to_decimal};
use crate::text::{chars_of, find_starting, remove_spaces, split_lines, split_words};
use vstd::prelude::*;

verus! {

use crate::command::agrees;
use crate::number::{
    decimal, is_numeral_of, law_decimal_is_a_numeral, law_decimal_is_injective,
    law_decimal_is_read_back, law_numerals_are_read, parsed,
};
use crate::text::{contents, first_starting, is_word, law_two_words, lines, without_spaces, words};

/// The directory of a job's control group.
pub open spec fn directory(node: Seq<char>, job_id: u32) -> Seq<char> {
    "/sys/fs/cgroup/system.slice/"@ + node + "_slurmstepd.scope/job_"@ + decimal(job_id as nat)
}

/// The directory of a job's control group on a node, whose name is not always known.
pub fn cgroup_path(node: Option<&str>, job_id: u32) -> (r: Result<String, String>)
    ensures
        match node {
            Some(name) => agrees(r, Ok(directory(name@, job_id))),
            None => agrees(r, Err("failed to get machine hostname"@)),
        },
{
    match node {
        Some(name) => {
            let mut path: String = "/sys/fs/cgroup/system.slice/".to_owned();
            path.append(name);
            path.append("_slurmstepd.scope/job_");
            path.append(to_decimal(job_id as u64).as_str());
            Ok(path)
        },
        None => Err("failed to get machine hostname".to_owned()),
    }
}

/// The directory of a job's control group, if it exists.
pub fn get_cgroup_directory(job_id: u32, path: String, path_exists: bool) -> (r: Result<
    String,
    String,
>)
    ensures
        path_exists ==> r == Ok::<String, String>(path),
        !path_exists ==> agrees(
            r,
            Err(
                "cgroup directory for job "@ + decimal(job_id as nat) + " '"@ + path@
                    + "' does not exist"@,
            ),
        ),
{
    if !path_exists {
        let mut e: String = "cgroup directory for job ".to_owned();
        e.append(to_decimal(job_id as u64).as_str());
        e.append(" '");
        e.append(path.as_str());
        e.append("' does not exist");
        return Err(e);
    }
    Ok(path)
}

/// The file that holds the details of a job's memory.
pub fn memory_stat_path(cgroup_dir: &str) -> (path: String)
    ensures
        path@ == cgroup_dir@ + "/memory.stat"@,
{
    cgroup_dir.to_owned().concat("/memory.stat")
}

/// The file that holds the size of a job's memory.
pub fn current_memory_path(cgroup_dir: &str) -> (path: String)
    ensures
        path@ == cgroup_dir@ + "/memory.current"@,
{
    cgroup_dir.to_owned().concat("/memory.current")
}

/// The file that holds a job's processor time.
pub fn cpu_stat_path(cgroup_dir: &str) -> (path: String)
    ensures
        path@ == cgroup_dir@ + "/cpu.stat"@,
{
    cgroup_dir.to_owned().concat("/cpu.stat")
}

/// What an entry of a statistics file is called, and what is said where it cannot be read.
pub struct Entry {
    /// How its line begins.
    pub prefix: &'static str,
    /// There is no such line.
    pub no_line: &'static str,
    /// The line has no second word.
    pub no_value: &'static str,
    /// The second word is not a number.
    pub bad_value: &'static str,
}

/// The value of an entry: the second word of the first line that begins with the entry's prefix.
pub open spec fn entry_value(stat: Seq<char>, entry: Entry) -> Result<u64, Seq<char>> {
    match first_starting(lines(stat), entry.prefix@) {
        None => Err(entry.no_line@),
        Some(line) => if words(line).len() < 2 {
            Err(entry.no_value@)
        } else {
            match parsed(words(line)[1], u64::MAX as nat) {
                Ok(n) => Ok(n as u64),
                Err(e) => Err(entry.bad_value@ + ": "@ + e.text()),
            }
        },
    }
}

/// Reads the value of an entry of a statistics file.
fn read_entry(stat: &str, entry: &Entry) -> (r: Result<u64, String>)
    ensures
        agrees(r, entry_value(stat@, *entry)),
{
    let rows = split_lines(&chars_of(stat));
    let line: usize = match find_starting(&rows, &chars_of(entry.prefix)) {
        Some(i) => i,
        None => return Err(entry.no_line.to_owned()),
    };
    let row = split_words(&rows[line]);
    if row.len() < 2 {
        return Err(entry.no_value.to_owned());
    }
    assert(contents(row@)[1] == row@[1]@);
    match parse_unsigned(&row[1], u64::MAX) {
        Ok(n) => Ok(n),
        Err(error) => {
            let mut e: String = entry.bad_value.to_owned();
            e.append(": ");
            e.append(error.message().as_str());
            Err(e)
        },
    }
}

/// The entry for the memory of files that were not used lately.
pub open spec fn inactive_file() -> Entry {
    Entry {
        prefix: "inactive_file",
        no_line: "could not find inactive_file line",
        no_value: "unable to get inactive_file value",
        bad_value: "unable to parse inactive_file value",
    }
}

/// The entry for the processor time in microseconds.
pub open spec fn usage_usec() -> Entry {
    Entry {
        prefix: "usage_usec ",
        no_line: "could not find usage_usec line",
        no_value: "unable to get usage_usec value",
        bad_value: "unable to parse usage_usec",
    }
}

/// The size of a job's memory.
pub open spec fn current_memory(current: Seq<char>) -> Result<u64, Seq<char>> {
    match parsed(without_spaces(current), u64::MAX as nat) {
        Ok(n) => Ok(n as u64),
        Err(e) => Err(
            "unable to parse current memory cgroup file contents '"@ + without_spaces(current)
                + "' into u64: "@ + e.text(),
        ),
    }
}

/// The working set of a job: its memory without the files that were not used lately.
pub open spec fn working_set(stat: Seq<char>, current: Seq<char>) -> Result<u64, Seq<char>> {
    match current_memory(current) {
        Err(e) => Err(e),
        Ok(used) => match entry_value(stat, inactive_file()) {
            Err(e) => Err(e),
            Ok(inactive) => if inactive > used {
                Err(
                    "Inactive file memory ("@ + decimal(inactive as nat)
                        + ") is larger than  current memory("@ + decimal(used as nat) + ")"@,
                )
            } else {
                Ok((used - inactive) as u64)
            },
        },
    }
}

fn read_current_memory(current: &str) -> (r: Result<u64, String>)
    ensures
        agrees(r, current_memory(current@)),
{
    let digits = remove_spaces(&chars_of(current));
    match parse_unsigned(&digits, u64::MAX) {
        Ok(n) => Ok(n),
        Err(error) => {
            let mut e: String =
                "unable to parse current memory cgroup file contents '".to_owned();
            e.append(string_of(&digits).as_str());
            e.append("' into u64: ");
            e.append(error.message().as_str());
            Err(e)
        },
    }
}

/// The memory that a job uses, in bytes, from the contents of `memory.stat` and `memory.current`.
pub fn get_memory_usage(memory_stat: &str, memory_current: &str) -> (r: Result<u64, String>)
    ensures
        agrees(r, working_set(memory_stat@, memory_current@)),
{
    let current: u64 = match read_current_memory(memory_current) {
        Ok(n) => n,
        Err(e) => return Err(e),
    };
    let entry = Entry {
        prefix: "inactive_file",
        no_line: "could not find inactive_file line",
        no_value: "unable to get inactive_file value",
        bad_value: "unable to parse inactive_file value",
    };
    let inactive: u64 = match read_entry(memory_stat, &entry) {
        Ok(n) => n,
        Err(e) => return Err(e),
    };
    if inactive > current {
        let mut e: String = "Inactive file memory (".to_owned();
        e.append(to_decimal(inactive).as_str());
        e.append(") is larger than  current memory(");
        e.append(to_decimal(current).as_str());
        e.append(")");
        return Err(e);
    }
    Ok(current - inactive)
}

/// The processor time that a job has used, in microseconds, from the contents of `cpu.stat`.
pub fn get_cpu_usage(cpu_stat: &str) -> (r: Result<u64, String>)
    ensures
        agrees(r, entry_value(cpu_stat@, usage_usec())),
{
    let entry = Entry {
        prefix: "usage_usec ",
        no_line: "could not find usage_usec line",
        no_value: "unable to get usage_usec value",
        bad_value: "unable to parse usage_usec",
    };
    read_entry(cpu_stat, &entry)
}

/// The working set is never larger than the memory, and together with the inactive files it makes
/// up the memory.
pub proof fn law_working_set_and_inactive_files_make_up_the_memory(
    stat: Seq<char>,
    current: Seq<char>,
)
    ensures
        working_set(stat, current) matches Ok(bytes) ==> {
            &&& current_memory(current) matches Ok(used)
            &&& entry_value(stat, inactive_file()) matches Ok(inactive)
            &&& bytes <= used
            &&& bytes + inactive == used
        },
{
}

/// White space in the file that holds the size of the memory does not matter.
pub proof fn law_memory_ignores_spaces(stat: Seq<char>, a: Seq<char>, b: Seq<char>)
    requires
        without_spaces(a) == without_spaces(b),
    ensures
        working_set(stat, a) == working_set(stat, b),
{
}

proof fn lemma_entry_is_read_back(stat: Seq<char>, entry: Entry, name: Seq<char>, n: u64)
    requires
        is_word(name),
        first_starting(lines(stat), entry.prefix@) == Some(
            name + seq![' '] + decimal(n as nat),
        ),
    ensures
        entry_value(stat, entry) == Ok::<u64, Seq<char>>(n),
{
    law_decimal_is_a_numeral(n as nat);
    assert forall|i: int| 0 <= i < decimal(n as nat).len() implies !crate::text::is_space(
        #[trigger] decimal(n as nat)[i],
    ) by {
        assert(crate::number::is_digit(decimal(n as nat)[i]));
    }
    law_two_words(name, decimal(n as nat));
    law_decimal_is_read_back(n as nat, u64::MAX as nat);
}

/// The processor time is read from the first line of the form `usage_usec` and a number.
pub proof fn law_cpu_usage_is_read_back(stat: Seq<char>, n: u64)
    requires
        first_starting(lines(stat), "usage_usec "@) == Some("usage_usec "@ + decimal(n as nat)),
    ensures
        entry_value(stat, usage_usec()) == Ok::<u64, Seq<char>>(n),
{
    reveal_strlit("usage_usec ");
    reveal_strlit("usage_usec");
    assert("usage_usec "@ =~= "usage_usec"@ + seq![' ']);
    lemma_entry_is_read_back(stat, usage_usec(), "usage_usec"@, n);
}

/// The inactive files are read from the first line about them, if it has the form
/// `inactive_file` and a number.
pub proof fn law_inactive_files_are_read_back(stat: Seq<char>, n: u64)
    requires
        first_starting(lines(stat), "inactive_file"@) == Some(
            "inactive_file "@ + decimal(n as nat),
        ),
    ensures
        entry_value(stat, inactive_file()) == Ok::<u64, Seq<char>>(n),
{
    reveal_strlit("inactive_file ");
    reveal_strlit("inactive_file");
    assert("inactive_file "@ =~= "inactive_file"@ + seq![' ']);
    lemma_entry_is_read_back(stat, inactive_file(), "inactive_file"@, n);
}

/// The memory is read back from a number and a line feed.
pub proof fn law_current_memory_is_read_back(n: u64)
    ensures
        current_memory(decimal(n as nat) + "\n"@) == Ok::<u64, Seq<char>>(n),
{
    let keep = |c: char| !crate::text::is_space(c);
    let digits = decimal(n as nat);
    let text = digits + "\n"@;
    reveal_strlit("\n");
    law_decimal_is_a_numeral(n as nat);
    law_decimal_is_read_back(n as nat, u64::MAX as nat);
    assert(text.filter(keep) == digits) by {
        reveal(Seq::filter);
        assert(text.drop_last() =~= digits);
        assert forall|i: int| 0 <= i < digits.len() implies keep(#[trigger] digits[i]) by {
            assert(crate::number::is_digit(digits[i]));
        }
        lemma_filter_keeps_all(digits, keep);
    }
}

proof fn lemma_filter_keeps_all(s: Seq<char>, keep: spec_fn(char) -> bool)
    requires
        forall|i: int| 0 <= i < s.len() ==> keep(#[trigger] s[i]),
    ensures
        s.filter(keep) == s,
    decreases s.len(),
{
    reveal(Seq::filter);
    if s.len() > 0 {
        lemma_filter_keeps_all(s.drop_last(), keep);
        assert(s.drop_last().push(s.last()) =~= s);
    }
}

/// The directory names the node and the job, and two jobs of a node have two directories.
pub proof fn law_each_job_has_its_directory(node: Seq<char>, a: u32, b: u32)
    ensures
        directory(node, a) == "/sys/fs/cgroup/system.slice/"@ + node + "_slurmstepd.scope/job_"@
            + decimal(a as nat),
        directory(node, a) == directory(node, b) ==> a == b,
{
    let head = "/sys/fs/cgroup/system.slice/"@ + node + "_slurmstepd.scope/job_"@;
    if directory(node, a) == directory(node, b) {
        assert(directory(node, a).skip(head.len() as int) =~= decimal(a as nat));
        assert(directory(node, b).skip(head.len() as int) =~= decimal(b as nat));
        law_decimal_is_injective(a as nat, b as nat);
    }
}

/// The size of the memory is read exactly when the file holds a numeral for it, with white space
/// anywhere; otherwise the error tells what the file holds.
pub proof fn law_memory_size_is_the_number_in_the_file(current: Seq<char>, n: u64)
    ensures
        current_memory(current) == Ok::<u64, Seq<char>>(n) <==> is_numeral_of(
            without_spaces(current),
            n as nat,
        ),
        parsed(without_spaces(current), 0xffff_ffff_ffff_ffff) matches Err(e) ==> current_memory(
            current,
        ) == Err::<u64, Seq<char>>(
            "unable to parse current memory cgroup file contents '"@ + without_spaces(current)
                + "' into u64: "@ + e.text(),
        ),
{
    let text = without_spaces(current);
    law_numerals_are_read(text, n as nat, u64::MAX as nat);
    if let Ok(m) = parsed(text, u64::MAX as nat) {
        law_numerals_are_read(text, m, u64::MAX as nat);
    }
}

/// The value of an entry is the number in the second word of the first line that begins with the
/// prefix, whatever 64-bit number it is. Each way in which it can be missing has its own error.
pub proof fn law_entry_is_the_second_word(stat: Seq<char>, entry: Entry, k: int, n: u64)
    requires
        0 <= k <= lines(stat).len(),
        forall|i: int|
            0 <= i < k ==> !crate::text::occurs_at(#[trigger] lines(stat)[i], entry.prefix@, 0),
        k < lines(stat).len() ==> crate::text::occurs_at(lines(stat)[k], entry.prefix@, 0),
    ensures
        k == lines(stat).len() ==> entry_value(stat, entry) == Err::<u64, Seq<char>>(
            entry.no_line@,
        ),
        k < lines(stat).len() ==> {
            let row = words(lines(stat)[k]);
            &&& entry_value(stat, entry) == Ok::<u64, Seq<char>>(n) <==> row.len() >= 2
                && is_numeral_of(row[1], n as nat)
            &&& row.len() < 2 ==> entry_value(stat, entry) == Err::<u64, Seq<char>>(entry.no_value@)
            &&& row.len() >= 2 ==> (parsed(row[1], 0xffff_ffff_ffff_ffff) matches Err(e)
                ==> entry_value(stat, entry) == Err::<u64, Seq<char>>(
                entry.bad_value@ + ": "@ + e.text(),
            ))
        },
{
    crate::text::law_the_first_line_that_begins_is_found(lines(stat), entry.prefix@, k);
    if k < lines(stat).len() {
        let row = words(lines(stat)[k]);
        if row.len() >= 2 {
            law_numerals_are_read(row[1], n as nat, u64::MAX as nat);
            if let Ok(m) = parsed(row[1], u64::MAX as nat) {
                law_numerals_are_read(row[1], m, u64::MAX as nat);
            }
        }
    }
}

/// How the two entries are found, and what is said where they cannot be read.
pub proof fn law_names_of_the_entries()
    ensures
        inactive_file().prefix@ == "inactive_file"@,
        inactive_file().no_line@ == "could not find inactive_file line"@,
        inactive_file().no_value@ == "unable to get inactive_file value"@,
        inactive_file().bad_value@ == "unable to parse inactive_file value"@,
        usage_usec().prefix@ == "usage_usec "@,
        usage_usec().no_line@ == "could not find usage_usec line"@,
        usage_usec().no_value@ == "unable to get usage_usec value"@,
        usage_usec().bad_value@ == "unable to parse usage_usec"@,
{
}

/// Whenever the memory and the inactive files can be read and the files are no larger than the
/// memory, the memory without the files is used.
pub proof fn law_memory_without_inactive_files_is_used(
    stat: Seq<char>,
    current: Seq<char>,
    used: u64,
    inactive: u64,
)
    requires
        current_memory(current) == Ok::<u64, Seq<char>>(used),
        entry_value(stat, inactive_file()) == Ok::<u64, Seq<char>>(inactive),
    ensures
        inactive <= used ==> working_set(stat, current) == Ok::<u64, Seq<char>>(
            (used - inactive) as u64,
        ),
        inactive > used ==> working_set(stat, current) == Err::<u64, Seq<char>>(
            "Inactive file memory ("@ + decimal(inactive as nat)
                + ") is larger than  current memory("@ + decimal(used as nat) + ")"@,
        ),
{
}

/// What cannot be read is reported, the memory before the inactive files.
pub proof fn law_unreadable_memory_is_reported(stat: Seq<char>, current: Seq<char>)
    ensures
        current_memory(current) matches Err(e) ==> working_set(stat, current) == Err::<
            u64,
            Seq<char>,
        >(e),
        current_memory(current) is Ok ==> (entry_value(stat, inactive_file()) matches Err(e)
            ==> working_set(stat, current) == Err::<u64, Seq<char>>(e)),
{
}

/// The memory that is used grows byte by byte with the memory, and shrinks byte by byte with the
/// inactive files.
pub proof fn law_memory_use_changes_byte_by_byte(
    stat_a: Seq<char>,
    current_a: Seq<char>,
    stat_b: Seq<char>,
    current_b: Seq<char>,
)
    ensures
        working_set(stat_a, current_a) is Ok && working_set(stat_b, current_b) is Ok
            ==> working_set(stat_b, current_b)->Ok_0 - working_set(stat_a, current_a)->Ok_0 == (
        current_memory(current_b)->Ok_0 - current_memory(current_a)->Ok_0) - (entry_value(
            stat_b,
            inactive_file(),
        )->Ok_0 - entry_value(stat_a, inactive_file())->Ok_0),
{
}

} // verus!
