//! What Slurm knows of a job, as `scontrol show jobid -dd` tells it.

use crate::calendar::read_time;
use crate::command::{lossy_text, CommandOutput};
use crate::gpu::requested_gpu_memory;
use crate::number::parse_unsigned;
use crate::pattern::get_first_regex_group;
use crate::text::{chars_of, contains, find_containing, split_lines};
use vstd::prelude::*;

verus! {

use crate::calendar::{
    calendar_time, chrono_seconds, is_time_text, seconds_since_epoch, time_exists, time_or_error,
    TIME_FORMAT,
};
use crate::command::views;
use crate::gpu::{shard_memory, SHARDS_PER_GPU};
use crate::number::{is_numeral_of, law_numerals_are_read, parsed};
use crate::pattern::first_group;
use crate::text::{first_containing, lines, occurs_in};

pub const USER_NAME: &'static str = "UserId=([a-z_\\-]+)\\(";

pub const USER_ID: &'static str = "UserId=[a-z_\\-]+?\\((\\d+)\\)";

pub const JOB_ID: &'static str = "JobId=(\\d+)";

pub const JOB_NAME: &'static str = "JobName=(.+?)\\s";

pub const ARRAY_JOB_ID: &'static str = "ArrayJobId=(\\d+)";

pub const ARRAY_TASK_ID: &'static str = "ArrayTaskId=(\\d+)";

pub const SUBMIT_TIME: &'static str = "SubmitTime=(\\d{4}-\\d{2}-\\d{2}T\\d{2}:\\d{2}:\\d{2})";

pub const START_TIME: &'static str = "StartTime=(\\d{4}-\\d{2}-\\d{2}T\\d{2}:\\d{2}:\\d{2})";

pub const CPUS: &'static str = "NumCPUs=(\\d+)";

pub const MEMORY: &'static str = "Mem=(\\d+)";

pub const GPU_SHARDS: &'static str = "JOB_GRES=.*?shard:(\\d+)";

/// The number of bytes of a megabyte.
pub const MEGABYTE: u64 = 1_000_000;

/// The device whose memory stands for that of every GPU.
pub const REFERENCE_GPU: u32 = 0;

/// A number of GPUs, as a fraction.
#[derive(Clone, Copy, Debug, PartialEq, Eq, Structural)]
pub struct GpuCount {
    /// How many shards there are.
    pub shards: u8,
    /// How many shards make up one GPU.
    pub shards_per_gpu: u16,
}

/// A job and what it requested.
#[derive(Debug)]
pub struct JobInfo {
    pub job_id: u32,
    pub job_name: String,
    pub user_name: String,
    pub user_id: usize,
    pub submit_time: i64,
    pub start_time: i64,
    pub is_array_task: bool,
    pub array_job_id: Option<u32>,
    pub array_task_id: Option<u32>,
    pub requested_cpus: u16,
    pub requested_memory: u64,
    pub is_gpu_job: bool,
    pub requested_gpu_shards: u8,
    pub requested_gpus: GpuCount,
    pub requested_gpu_memory: u64,
}

/// The model of a job.
pub struct JobModel {
    pub job_id: u32,
    pub job_name: Seq<char>,
    pub user_name: Seq<char>,
    pub user_id: usize,
    pub submit_time: i64,
    pub start_time: i64,
    pub is_array_task: bool,
    pub array_job_id: Option<u32>,
    pub array_task_id: Option<u32>,
    pub requested_cpus: u16,
    pub requested_memory: u64,
    pub is_gpu_job: bool,
    pub requested_gpu_shards: u8,
    pub requested_gpus: GpuCount,
    pub requested_gpu_memory: u64,
}

impl View for JobInfo {
    type V = JobModel;

    open spec fn view(&self) -> JobModel {
        JobModel {
            job_id: self.job_id,
            job_name: self.job_name@,
            user_name: self.user_name@,
            user_id: self.user_id,
            submit_time: self.submit_time,
            start_time: self.start_time,
            is_array_task: self.is_array_task,
            array_job_id: self.array_job_id,
            array_task_id: self.array_task_id,
            requested_cpus: self.requested_cpus,
            requested_memory: self.requested_memory,
            is_gpu_job: self.is_gpu_job,
            requested_gpu_shards: self.requested_gpu_shards,
            requested_gpus: self.requested_gpus,
            requested_gpu_memory: self.requested_gpu_memory,
        }
    }
}

/// What the search for each field of a job found.
#[derive(Debug)]
pub struct JobFields {
    pub user_name: Result<String, String>,
    pub user_id: Result<String, String>,
    pub job_id: Result<String, String>,
    pub job_name: Result<String, String>,
    pub array_job_id: Result<String, String>,
    pub array_task_id: Result<String, String>,
    pub submit_time: Result<i64, String>,
    pub start_time: Result<i64, String>,
    pub cpus: Result<String, String>,
    pub memory: Result<String, String>,
    pub gpu_shards: Result<String, String>,
}

/// The model of the fields of a job.
pub struct FieldsModel {
    pub user_name: Result<Seq<char>, Seq<char>>,
    pub user_id: Result<Seq<char>, Seq<char>>,
    pub job_id: Result<Seq<char>, Seq<char>>,
    pub job_name: Result<Seq<char>, Seq<char>>,
    pub array_job_id: Result<Seq<char>, Seq<char>>,
    pub array_task_id: Result<Seq<char>, Seq<char>>,
    pub submit_time: Result<i64, Seq<char>>,
    pub start_time: Result<i64, Seq<char>>,
    pub cpus: Result<Seq<char>, Seq<char>>,
    pub memory: Result<Seq<char>, Seq<char>>,
    pub gpu_shards: Result<Seq<char>, Seq<char>>,
}

/// The text of a field, or of its error.
pub open spec fn field_text(field: Result<String, String>) -> Result<Seq<char>, Seq<char>> {
    match field {
        Ok(s) => Ok(s@),
        Err(e) => Err(e@),
    }
}

/// The value of a field, or the text of its error.
pub open spec fn field_time(field: Result<i64, String>) -> Result<i64, Seq<char>> {
    match field {
        Ok(t) => Ok(t),
        Err(e) => Err(e@),
    }
}

impl View for JobFields {
    type V = FieldsModel;

    open spec fn view(&self) -> FieldsModel {
        FieldsModel {
            user_name: field_text(self.user_name),
            user_id: field_text(self.user_id),
            job_id: field_text(self.job_id),
            job_name: field_text(self.job_name),
            array_job_id: field_text(self.array_job_id),
            array_task_id: field_text(self.array_task_id),
            submit_time: field_time(self.submit_time),
            start_time: field_time(self.start_time),
            cpus: field_text(self.cpus),
            memory: field_text(self.memory),
            gpu_shards: field_text(self.gpu_shards),
        }
    }
}

/// The Unix time in the first group of a pattern.
pub open spec fn time_group(pattern: Seq<char>, out: Seq<char>) -> Result<i64, Seq<char>> {
    match first_group(pattern, out) {
        Err(e) => Err(e),
        Ok(text) => time_or_error(text, chrono_seconds(text, TIME_FORMAT@)),
    }
}

/// The fields of a job in the output of `scontrol`.
pub open spec fn fields_in(out: Seq<char>) -> FieldsModel {
    FieldsModel {
        user_name: first_group(USER_NAME@, out),
        user_id: first_group(USER_ID@, out),
        job_id: first_group(JOB_ID@, out),
        job_name: first_group(JOB_NAME@, out),
        array_job_id: first_group(ARRAY_JOB_ID@, out),
        array_task_id: first_group(ARRAY_TASK_ID@, out),
        submit_time: time_group(SUBMIT_TIME@, out),
        start_time: time_group(START_TIME@, out),
        cpus: first_group(CPUS@, out),
        memory: first_group(MEMORY@, out),
        gpu_shards: first_group(GPU_SHARDS@, out),
    }
}

/// Whether a time that was searched for is the one of the calendar, or the error for a date that
/// does not exist, if the text that was found has the form `YYYY-MM-DDThh:mm:ss` in ASCII digits.
pub open spec fn follows_calendar(
    time: Result<i64, Seq<char>>,
    pattern: Seq<char>,
    out: Seq<char>,
) -> bool {
    first_group(pattern, out) matches Ok(text) ==> is_time_text(text) ==> time == calendar_time(
        text,
    )
}

/// Whether a time of a job is that of the text that was found, which then exists in the calendar,
/// if the text has the form `YYYY-MM-DDThh:mm:ss` in ASCII digits.
pub open spec fn is_found_time(time: i64, pattern: Seq<char>, out: Seq<char>) -> bool {
    first_group(pattern, out) matches Ok(text) && (is_time_text(text) ==> {
        &&& time_exists(text)
        &&& time == seconds_since_epoch(text) as i64
    })
}

/// The number in a field, none greater than `max`.
pub open spec fn number_in(
    field: Result<Seq<char>, Seq<char>>,
    name: Seq<char>,
    max: nat,
) -> Result<nat, Seq<char>> {
    match field {
        Err(e) => Err(e),
        Ok(text) => match parsed(text, max) {
            Ok(n) => Ok(n),
            Err(e) => Err("failed to parse "@ + name + ": "@ + e.text()),
        },
    }
}

impl FieldsModel {
    pub open spec fn user_id_number(self) -> Result<nat, Seq<char>> {
        number_in(self.user_id, "user_id"@, usize::MAX as nat)
    }

    pub open spec fn job_id_number(self) -> Result<nat, Seq<char>> {
        number_in(self.job_id, "job_id"@, u32::MAX as nat)
    }

    pub open spec fn array_job_id_number(self) -> Result<nat, Seq<char>> {
        number_in(self.array_job_id, "array_job_id"@, u32::MAX as nat)
    }

    pub open spec fn array_task_id_number(self) -> Result<nat, Seq<char>> {
        number_in(self.array_task_id, "array_task_id"@, u32::MAX as nat)
    }

    pub open spec fn cpus_number(self) -> Result<nat, Seq<char>> {
        number_in(self.cpus, "requested_cpus"@, u16::MAX as nat)
    }

    /// The requested memory in megabytes.
    pub open spec fn memory_number(self) -> Result<nat, Seq<char>> {
        number_in(self.memory, "requested_memory"@, u64::MAX as nat)
    }

    pub open spec fn gpu_shards_number(self) -> Result<nat, Seq<char>> {
        number_in(self.gpu_shards, "requested_gpu_shards"@, u8::MAX as nat)
    }

    /// The first error among the fields up to the requested memory, in the order in which they
    /// are read. The ids of an array are read for the task of an array only.
    pub open spec fn head_error(self, is_array_task: bool) -> Option<Seq<char>> {
        if self.user_name is Err {
            Some(self.user_name->Err_0)
        } else if self.user_id_number() is Err {
            Some(self.user_id_number()->Err_0)
        } else if self.job_id_number() is Err {
            Some(self.job_id_number()->Err_0)
        } else if self.job_name is Err {
            Some(self.job_name->Err_0)
        } else if is_array_task && self.array_job_id_number() is Err {
            Some(self.array_job_id_number()->Err_0)
        } else if is_array_task && self.array_task_id_number() is Err {
            Some(self.array_task_id_number()->Err_0)
        } else if self.submit_time is Err {
            Some(self.submit_time->Err_0)
        } else if self.start_time is Err {
            Some(self.start_time->Err_0)
        } else if self.cpus_number() is Err {
            Some(self.cpus_number()->Err_0)
        } else if self.memory_number() is Err {
            Some(self.memory_number()->Err_0)
        } else {
            None
        }
    }
}

/// Whether the output tells of the task of an array.
pub open spec fn tells_of_array(out: Seq<char>) -> bool {
    occurs_in(out, "ArrayTaskId"@)
}

/// The line about the resources that the job requested.
pub open spec fn resource_line(out: Seq<char>) -> Option<Seq<char>> {
    first_containing(lines(out), "JOB_GRES"@)
}

/// Whether the output tells of a job that requested shards of a GPU.
pub open spec fn tells_of_gpu(out: Seq<char>) -> bool {
    resource_line(out) matches Some(line) && occurs_in(line, "shard"@)
}

/// Whether the requested memory, where it is read, has a number of bytes that fits in 64 bits.
pub open spec fn memory_fits(fields: FieldsModel, out: Seq<char>) -> bool {
    fields.head_error(tells_of_array(out)) is None ==> fields.memory_number()->Ok_0 * MEGABYTE
        <= u64::MAX
}

/// The job that fields describe, before the memory of a GPU is known.
pub open spec fn described(fields: FieldsModel, out: Seq<char>) -> Result<JobModel, Seq<char>> {
    let is_array_task = tells_of_array(out);
    let is_gpu_job = tells_of_gpu(out);
    let shards = if is_gpu_job {
        fields.gpu_shards_number()->Ok_0 as u8
    } else {
        0
    };
    if fields.head_error(is_array_task) is Some {
        Err(fields.head_error(is_array_task)->0)
    } else if resource_line(out) is None {
        Err("could not find JOB_GRES line in '"@ + out + "'"@)
    } else if is_gpu_job && fields.gpu_shards_number() is Err {
        Err(fields.gpu_shards_number()->Err_0)
    } else {
        Ok(
            JobModel {
                job_id: fields.job_id_number()->Ok_0 as u32,
                job_name: fields.job_name->Ok_0,
                user_name: fields.user_name->Ok_0,
                user_id: fields.user_id_number()->Ok_0 as usize,
                submit_time: fields.submit_time->Ok_0,
                start_time: fields.start_time->Ok_0,
                is_array_task,
                array_job_id: if is_array_task {
                    Some(fields.array_job_id_number()->Ok_0 as u32)
                } else {
                    None
                },
                array_task_id: if is_array_task {
                    Some(fields.array_task_id_number()->Ok_0 as u32)
                } else {
                    None
                },
                requested_cpus: fields.cpus_number()->Ok_0 as u16,
                requested_memory: (fields.memory_number()->Ok_0 * MEGABYTE) as u64,
                is_gpu_job,
                requested_gpu_shards: shards,
                requested_gpus: GpuCount { shards, shards_per_gpu: SHARDS_PER_GPU },
                requested_gpu_memory: 0,
            },
        )
    }
}

/// How far the description of a job has come.
#[derive(Debug)]
pub enum JobStep {
    /// The description is complete.
    Complete(JobInfo),
    /// The job uses a GPU, whose memory has to be asked for.
    NeedsGpuMemory(GpuJob),
}

/// A job that uses a GPU whose memory is not known yet.
#[derive(Debug)]
pub struct GpuJob {
    pub job: JobInfo,
}

impl JobStep {
    /// The job as far as it is known.
    pub open spec fn job(self) -> JobModel {
        match self {
            JobStep::Complete(job) => job@,
            JobStep::NeedsGpuMemory(pending) => pending.job@,
        }
    }

    /// Whether the step is the one that a description calls for: a job that uses a GPU needs the
    /// memory of the GPU, and another job is complete.
    pub open spec fn follows(r: Result<JobStep, String>, model: Result<JobModel, Seq<char>>) -> bool {
        match (r, model) {
            (Ok(step), Ok(job)) => step.job() == job && (step is NeedsGpuMemory <==> job.is_gpu_job),
            (Err(e), Err(text)) => e@ == text,
            _ => false,
        }
    }
}

impl GpuJob {
    /// Which device to ask for its memory.
    pub fn gpu_index(&self) -> (index: u32)
        ensures
            index == REFERENCE_GPU,
            index == 0,
    {
        REFERENCE_GPU
    }

    /// Completes the description with the memory of one GPU.
    pub fn complete(self, total_gpu_memory: u64) -> (job: JobInfo)
        ensures
            job@ == (JobModel {
                requested_gpu_memory: shard_memory(
                    total_gpu_memory as nat,
                    self.job.requested_gpu_shards as nat,
                ) as u64,
                ..self.job@
            }),
    {
        let mut job = self.job;
        let bytes: u64 = requested_gpu_memory(total_gpu_memory, job.requested_gpu_shards);
        job.requested_gpu_memory = bytes;
        job
    }

    /// Completes the description with what came of asking for the memory of one GPU. An error is
    /// passed on as it is.
    pub fn finish(self, total: Result<u64, String>) -> (r: Result<JobInfo, String>)
        ensures
            total matches Err(e) ==> r == Err::<JobInfo, String>(e),
            total matches Ok(n) ==> r is Ok && r->Ok_0@ == (JobModel {
                requested_gpu_memory: shard_memory(
                    n as nat,
                    self.job.requested_gpu_shards as nat,
                ) as u64,
                ..self.job@
            }),
    {
        match total {
            Ok(n) => Ok(self.complete(n)),
            Err(e) => Err(e),
        }
    }
}

/// Reads the number in a field.
fn read_number(field: &Result<String, String>, name: &str, max: u64) -> (r: Result<u64, String>)
    ensures
        match r {
            Ok(n) => number_in(field_text(*field), name@, max as nat) == Ok::<nat, Seq<char>>(
                n as nat,
            ),
            Err(e) => number_in(field_text(*field), name@, max as nat) == Err::<nat, Seq<char>>(
                e@,
            ),
        },
        r matches Ok(n) ==> n <= max,
{
    match field {
        Err(e) => Err(e.clone()),
        Ok(text) => match parse_unsigned(&chars_of(text.as_str()), max) {
            Ok(n) => Ok(n),
            Err(error) => {
                let mut e: String = "failed to parse ".to_owned();
                e.append(name);
                e.append(": ");
                e.append(error.message().as_str());
                Err(e)
            },
        },
    }
}

/// The numbers among the fields up to the requested memory.
struct Head {
    user_id: usize,
    job_id: u32,
    array_job_id: Option<u32>,
    array_task_id: Option<u32>,
    submit_time: i64,
    start_time: i64,
    cpus: u16,
    megabytes: u64,
}

/// Whether the numbers are those of the fields.
spec fn is_head_of(head: Head, fields: FieldsModel, is_array_task: bool) -> bool {
    &&& fields.user_id_number() == Ok::<nat, Seq<char>>(head.user_id as nat)
    &&& fields.job_id_number() == Ok::<nat, Seq<char>>(head.job_id as nat)
    &&& is_array_task ==> {
        &&& head.array_job_id matches Some(n)
        &&& fields.array_job_id_number() == Ok::<nat, Seq<char>>(n as nat)
    }
    &&& is_array_task ==> {
        &&& head.array_task_id matches Some(n)
        &&& fields.array_task_id_number() == Ok::<nat, Seq<char>>(n as nat)
    }
    &&& !is_array_task ==> head.array_job_id is None && head.array_task_id is None
    &&& fields.submit_time == Ok::<i64, Seq<char>>(head.submit_time)
    &&& fields.start_time == Ok::<i64, Seq<char>>(head.start_time)
    &&& fields.cpus_number() == Ok::<nat, Seq<char>>(head.cpus as nat)
    &&& fields.memory_number() == Ok::<nat, Seq<char>>(head.megabytes as nat)
}

/// Reads the fields up to the requested memory.
fn read_head(fields: &JobFields, is_array_task: bool) -> (r: Result<Head, String>)
    ensures
        match r {
            Ok(head) => fields@.head_error(is_array_task) is None && is_head_of(
                head,
                fields@,
                is_array_task,
            ),
            Err(e) => fields@.head_error(is_array_task) == Some(e@),
        },
{
    match &fields.user_name {
        Ok(_) => {},
        Err(e) => return Err(e.clone()),
    }
    let user_id: usize = match read_number(&fields.user_id, "user_id", usize::MAX as u64) {
        Ok(n) => n as usize,
        Err(e) => return Err(e),
    };
    let job_id: u32 = match read_number(&fields.job_id, "job_id", u32::MAX as u64) {
        Ok(n) => n as u32,
        Err(e) => return Err(e),
    };
    match &fields.job_name {
        Ok(_) => {},
        Err(e) => return Err(e.clone()),
    }
    let mut array_job_id: Option<u32> = None;
    let mut array_task_id: Option<u32> = None;
    if is_array_task {
        match read_number(&fields.array_job_id, "array_job_id", u32::MAX as u64) {
            Ok(n) => {
                array_job_id = Some(n as u32);
            },
            Err(e) => return Err(e),
        }
        match read_number(&fields.array_task_id, "array_task_id", u32::MAX as u64) {
            Ok(n) => {
                array_task_id = Some(n as u32);
            },
            Err(e) => return Err(e),
        }
    }
    let submit_time: i64 = match &fields.submit_time {
        Ok(t) => *t,
        Err(e) => return Err(e.clone()),
    };
    let start_time: i64 = match &fields.start_time {
        Ok(t) => *t,
        Err(e) => return Err(e.clone()),
    };
    let cpus: u16 = match read_number(&fields.cpus, "requested_cpus", u16::MAX as u64) {
        Ok(n) => n as u16,
        Err(e) => return Err(e),
    };
    let megabytes: u64 = match read_number(&fields.memory, "requested_memory", u64::MAX) {
        Ok(n) => n,
        Err(e) => return Err(e),
    };
    Ok(
        Head {
            user_id,
            job_id,
            array_job_id,
            array_task_id,
            submit_time,
            start_time,
            cpus,
            megabytes,
        },
    )
}

/// Describes a job by what the search for its fields found.
pub fn job_from_fields(fields: JobFields, stdout: &str) -> (r: Result<JobStep, String>)
    requires
        memory_fits(fields@, stdout@),
    ensures
        JobStep::follows(r, described(fields@, stdout@)),
{
    let out = chars_of(stdout);
    let is_array_task = contains(&out, &chars_of("ArrayTaskId"));
    let head = match read_head(&fields, is_array_task) {
        Ok(head) => head,
        Err(e) => return Err(e),
    };
    let requested_memory: u64 = head.megabytes * MEGABYTE;
    let rows = split_lines(&out);
    let is_gpu_job: bool = match find_containing(&rows, &chars_of("JOB_GRES")) {
        Some(i) => contains(&rows[i], &chars_of("shard")),
        None => {
            let mut e: String = "could not find JOB_GRES line in '".to_owned();
            e.append(stdout);
            e.append("'");
            return Err(e);
        },
    };
    let mut shards: u8 = 0;
    if is_gpu_job {
        match read_number(&fields.gpu_shards, "requested_gpu_shards", u8::MAX as u64) {
            Ok(n) => {
                shards = n as u8;
            },
            Err(e) => return Err(e),
        }
    }
    let job = JobInfo {
        job_id: head.job_id,
        job_name: fields.job_name.unwrap(),
        user_name: fields.user_name.unwrap(),
        user_id: head.user_id,
        submit_time: head.submit_time,
        start_time: head.start_time,
        is_array_task,
        array_job_id: head.array_job_id,
        array_task_id: head.array_task_id,
        requested_cpus: head.cpus,
        requested_memory,
        is_gpu_job,
        requested_gpu_shards: shards,
        requested_gpus: GpuCount { shards, shards_per_gpu: SHARDS_PER_GPU },
        requested_gpu_memory: 0,
    };
    if is_gpu_job {
        Ok(JobStep::NeedsGpuMemory(GpuJob { job }))
    } else {
        Ok(JobStep::Complete(job))
    }
}

/// Whether the requested memory, where it is read, has a number of bytes that fits in 64 bits.
pub fn requested_memory_fits(fields: &JobFields, stdout: &str) -> (b: bool)
    ensures
        b == memory_fits(fields@, stdout@),
{
    let is_array_task = contains(&chars_of(stdout), &chars_of("ArrayTaskId"));
    match read_head(fields, is_array_task) {
        Ok(head) => {
            assert(head.megabytes * MEGABYTE <= u64::MAX <==> head.megabytes <= u64::MAX
                / MEGABYTE);
            head.megabytes <= u64::MAX / MEGABYTE
        },
        Err(_) => true,
    }
}

/// Reads the Unix time in the first group of a pattern.
fn find_time(pattern: &str, stdout: &str) -> (r: Result<i64, String>)
    ensures
        field_time(r) == time_group(pattern@, stdout@),
        follows_calendar(field_time(r), pattern@, stdout@),
{
    match get_first_regex_group(pattern, stdout) {
        Ok(text) => read_time(text.as_str()),
        Err(e) => Err(e),
    }
}

/// Searches the output of `scontrol` for the fields of a job.
pub fn find_fields(stdout: &str) -> (fields: JobFields)
    ensures
        fields@ == fields_in(stdout@),
        fields.user_name matches Ok(name) ==> occurs_in(stdout@, name@),
        fields.job_name matches Ok(name) ==> occurs_in(stdout@, name@),
        follows_calendar(fields@.submit_time, SUBMIT_TIME@, stdout@),
        follows_calendar(fields@.start_time, START_TIME@, stdout@),
{
    JobFields {
        user_name: get_first_regex_group(USER_NAME, stdout),
        user_id: get_first_regex_group(USER_ID, stdout),
        job_id: get_first_regex_group(JOB_ID, stdout),
        job_name: get_first_regex_group(JOB_NAME, stdout),
        array_job_id: get_first_regex_group(ARRAY_JOB_ID, stdout),
        array_task_id: get_first_regex_group(ARRAY_TASK_ID, stdout),
        submit_time: find_time(SUBMIT_TIME, stdout),
        start_time: find_time(START_TIME, stdout),
        cpus: get_first_regex_group(CPUS, stdout),
        memory: get_first_regex_group(MEMORY, stdout),
        gpu_shards: get_first_regex_group(GPU_SHARDS, stdout),
    }
}

/// Describes a job by what `scontrol show jobid -dd` wrote.
pub fn get_job_info(output: &CommandOutput) -> (r: Result<JobStep, String>)
    requires
        memory_fits(fields_in(output.out()), output.out()),
    ensures
        JobStep::follows(r, described(fields_in(output.out()), output.out())),
        r matches Ok(step) ==> {
            &&& occurs_in(output.out(), step.job().user_name)
            &&& occurs_in(output.out(), step.job().job_name)
            &&& is_found_time(step.job().submit_time, SUBMIT_TIME@, output.out())
            &&& is_found_time(step.job().start_time, START_TIME@, output.out())
        },
        follows_calendar(fields_in(output.out()).submit_time, SUBMIT_TIME@, output.out()),
        follows_calendar(fields_in(output.out()).start_time, START_TIME@, output.out()),
        vstd::utf8::valid_utf8(output.stdout@) ==> output.out() == vstd::utf8::decode_utf8(
            output.stdout@,
        ),
{
    let stdout = lossy_text(&output.stdout);
    job_from_fields(find_fields(stdout.as_str()), stdout.as_str())
}

/// Describes a job by what `scontrol show jobid -dd` wrote, or returns `None` where the number of
/// bytes of the requested memory does not fit in 64 bits.
pub fn try_get_job_info(output: &CommandOutput) -> (r: Option<Result<JobStep, String>>)
    ensures
        r is Some <==> memory_fits(fields_in(output.out()), output.out()),
        r matches Some(step) ==> JobStep::follows(
            step,
            described(fields_in(output.out()), output.out()),
        ),
        r matches Some(Ok(step)) ==> {
            &&& occurs_in(output.out(), step.job().user_name)
            &&& occurs_in(output.out(), step.job().job_name)
            &&& is_found_time(step.job().submit_time, SUBMIT_TIME@, output.out())
            &&& is_found_time(step.job().start_time, START_TIME@, output.out())
        },
        follows_calendar(fields_in(output.out()).submit_time, SUBMIT_TIME@, output.out()),
        follows_calendar(fields_in(output.out()).start_time, START_TIME@, output.out()),
        vstd::utf8::valid_utf8(output.stdout@) ==> output.out() == vstd::utf8::decode_utf8(
            output.stdout@,
        ),
{
    let stdout = lossy_text(&output.stdout);
    if requested_memory_fits(&find_fields(stdout.as_str()), stdout.as_str()) {
        Some(get_job_info(output))
    } else {
        None
    }
}

/// What the user is told of the output of `scontrol show`.
pub fn job_info_notices(output: &CommandOutput) -> (notices: Vec<String>)
    ensures
        views(notices@) == (if output.err().len() > 0 {
            seq!["scontrol show produced stderr:\n"@ + output.err()]
        } else {
            Seq::empty()
        }),
        vstd::utf8::valid_utf8(output.stderr@) ==> output.err() == vstd::utf8::decode_utf8(
            output.stderr@,
        ),
{
    let stderr = lossy_text(&output.stderr);
    let mut notices: Vec<String> = Vec::new();
    if !stderr.as_str().is_empty() {
        let mut m: String = "scontrol show produced stderr:\n".to_owned();
        m.append(stderr.as_str());
        notices.push(m);
    }
    assert(views(notices@) =~= (if output.err().len() > 0 {
        seq!["scontrol show produced stderr:\n"@ + output.err()]
    } else {
        Seq::empty()
    }));
    notices
}

/// A description has both ids of an array if the job is the task of one, and none otherwise.
pub proof fn law_array_ids_go_together(fields: FieldsModel, out: Seq<char>)
    ensures
        described(fields, out) matches Ok(job) ==> {
            &&& job.is_array_task <==> job.array_job_id is Some
            &&& job.is_array_task <==> job.array_task_id is Some
        },
{
}

/// A job that requested no shards has no share of a GPU and of its memory.
pub proof fn law_other_jobs_have_no_gpu(fields: FieldsModel, out: Seq<char>)
    ensures
        described(fields, out) matches Ok(job) ==> !job.is_gpu_job ==> {
            &&& job.requested_gpu_shards == 0
            &&& job.requested_gpus.shards == 0
            &&& job.requested_gpu_memory == 0
        },
{
}

/// What is searched for the ids of an array does not matter for a job that is not the task of one,
/// and what is searched for shards does not matter for a job that uses no GPU.
pub proof fn law_unused_fields_do_not_matter(a: FieldsModel, b: FieldsModel, out: Seq<char>)
    requires
        b == (FieldsModel {
            array_job_id: if tells_of_array(out) {
                a.array_job_id
            } else {
                b.array_job_id
            },
            array_task_id: if tells_of_array(out) {
                a.array_task_id
            } else {
                b.array_task_id
            },
            gpu_shards: if tells_of_gpu(out) {
                a.gpu_shards
            } else {
                b.gpu_shards
            },
            ..a
        }),
    ensures
        described(a, out) == described(b, out),
{
}

/// A job is seen with all that it holds.
pub proof fn law_jobs_are_seen_as_they_are(job: JobInfo)
    ensures
        job@.job_id == job.job_id,
        job@.job_name == job.job_name@,
        job@.user_name == job.user_name@,
        job@.user_id == job.user_id,
        job@.submit_time == job.submit_time,
        job@.start_time == job.start_time,
        job@.is_array_task == job.is_array_task,
        job@.array_job_id == job.array_job_id,
        job@.array_task_id == job.array_task_id,
        job@.requested_cpus == job.requested_cpus,
        job@.requested_memory == job.requested_memory,
        job@.is_gpu_job == job.is_gpu_job,
        job@.requested_gpu_shards == job.requested_gpu_shards,
        job@.requested_gpus == job.requested_gpus,
        job@.requested_gpu_memory == job.requested_gpu_memory,
{
}

/// The result of a search is seen as it is.
pub proof fn law_results_are_seen_as_they_are(
    text: Result<String, String>,
    time: Result<i64, String>,
)
    ensures
        text matches Ok(s) ==> field_text(text) == Ok::<Seq<char>, Seq<char>>(s@),
        text matches Err(e) ==> field_text(text) == Err::<Seq<char>, Seq<char>>(e@),
        time matches Ok(t) ==> field_time(time) == Ok::<i64, Seq<char>>(t),
        time matches Err(e) ==> field_time(time) == Err::<i64, Seq<char>>(e@),
{
}

/// The fields of a job are seen with all that was found.
pub proof fn law_fields_are_seen_as_they_are(fields: JobFields)
    ensures
        fields@.user_name == field_text(fields.user_name),
        fields@.user_id == field_text(fields.user_id),
        fields@.job_id == field_text(fields.job_id),
        fields@.job_name == field_text(fields.job_name),
        fields@.array_job_id == field_text(fields.array_job_id),
        fields@.array_task_id == field_text(fields.array_task_id),
        fields@.submit_time == field_time(fields.submit_time),
        fields@.start_time == field_time(fields.start_time),
        fields@.cpus == field_text(fields.cpus),
        fields@.memory == field_text(fields.memory),
        fields@.gpu_shards == field_text(fields.gpu_shards),
{
}

/// Which pattern each field is searched with, in whatever output.
pub proof fn law_patterns_of_the_fields(out: Seq<char>)
    ensures
        fields_in(out).user_name == first_group("UserId=([a-z_\\-]+)\\("@, out),
        fields_in(out).user_id == first_group("UserId=[a-z_\\-]+?\\((\\d+)\\)"@, out),
        fields_in(out).job_id == first_group("JobId=(\\d+)"@, out),
        fields_in(out).job_name == first_group("JobName=(.+?)\\s"@, out),
        fields_in(out).array_job_id == first_group("ArrayJobId=(\\d+)"@, out),
        fields_in(out).array_task_id == first_group("ArrayTaskId=(\\d+)"@, out),
        fields_in(out).cpus == first_group("NumCPUs=(\\d+)"@, out),
        fields_in(out).memory == first_group("Mem=(\\d+)"@, out),
        fields_in(out).gpu_shards == first_group("JOB_GRES=.*?shard:(\\d+)"@, out),
        fields_in(out).submit_time == time_group(
            "SubmitTime=(\\d{4}-\\d{2}-\\d{2}T\\d{2}:\\d{2}:\\d{2})"@,
            out,
        ),
        fields_in(out).start_time == time_group(
            "StartTime=(\\d{4}-\\d{2}-\\d{2}T\\d{2}:\\d{2}:\\d{2})"@,
            out,
        ),
{
}

/// A time is what the date parser reads in the text that was found, and an error is passed on.
pub proof fn law_found_times_are_read(pattern: Seq<char>, out: Seq<char>)
    ensures
        first_group(pattern, out) matches Err(e) ==> time_group(pattern, out) == Err::<
            i64,
            Seq<char>,
        >(e),
        first_group(pattern, out) matches Ok(text) ==> match chrono_seconds(
            text,
            "%Y-%m-%dT%H:%M:%S"@,
        ) {
            Ok(seconds) => time_group(pattern, out) == Ok::<i64, Seq<char>>(seconds),
            Err(e) => time_group(pattern, out) == Err::<i64, Seq<char>>(
                "unable to parse date '"@ + text + "': "@ + e,
            ),
        },
{
}

/// Whether a field holds a numeral for a number.
pub open spec fn holds_number(field: Result<Seq<char>, Seq<char>>, n: nat) -> bool {
    field matches Ok(text) && is_numeral_of(text, n)
}

/// The number in a field is the one that it holds a numeral for, if that is not too large. What
/// cannot be read is reported with the name of the field.
pub proof fn law_number_in_a_field(
    field: Result<Seq<char>, Seq<char>>,
    name: Seq<char>,
    max: nat,
    n: nat,
)
    ensures
        number_in(field, name, max) == Ok::<nat, Seq<char>>(n) <==> holds_number(field, n) && n
            <= max,
        field matches Err(e) ==> number_in(field, name, max) == Err::<nat, Seq<char>>(e),
        field matches Ok(text) ==> (parsed(text, max) matches Err(e) ==> number_in(field, name, max)
            == Err::<nat, Seq<char>>("failed to parse "@ + name + ": "@ + e.text())),
{
    if let Ok(text) = field {
        law_numerals_are_read(text, n, max);
    }
}

/// Each array id is the number in its own field, for every task of an array, with and without a
/// GPU.
pub proof fn law_array_ids_are_those_of_their_fields(fields: FieldsModel, out: Seq<char>)
    ensures
        described(fields, out) matches Ok(job) ==> {
            &&& job.is_array_task <==> occurs_in(out, "ArrayTaskId"@)
            &&& job.is_array_task ==> {
                &&& job.array_job_id matches Some(n)
                &&& holds_number(fields.array_job_id, n as nat)
            }
            &&& job.is_array_task ==> {
                &&& job.array_task_id matches Some(n)
                &&& holds_number(fields.array_task_id, n as nat)
            }
            &&& !job.is_array_task ==> job.array_job_id is None && job.array_task_id is None
        },
{
    if let Ok(job) = described(fields, out) {
        if tells_of_array(out) {
            lemma_field_number(fields.array_job_id, "array_job_id"@, u32::MAX as nat);
            lemma_field_number(fields.array_task_id, "array_task_id"@, u32::MAX as nat);
        }
    }
}

proof fn lemma_field_number(field: Result<Seq<char>, Seq<char>>, name: Seq<char>, max: nat)
    ensures
        number_in(field, name, max) matches Ok(n) ==> n <= max && holds_number(field, n),
{
    if let Ok(n) = number_in(field, name, max) {
        law_number_in_a_field(field, name, max, n);
    }
}

/// A description tells what was found: each text and time as it is in its own field, each number
/// as the one in its own field, and the memory in bytes. A job uses a GPU exactly when the first
/// line about its resources tells of shards, two of which make up a GPU.
pub proof fn law_description_tells_what_was_found(fields: FieldsModel, out: Seq<char>)
    requires
        memory_fits(fields, out),
    ensures
        described(fields, out) matches Ok(job) ==> {
            &&& fields.user_name == Ok::<Seq<char>, Seq<char>>(job.user_name)
            &&& fields.job_name == Ok::<Seq<char>, Seq<char>>(job.job_name)
            &&& holds_number(fields.user_id, job.user_id as nat)
            &&& holds_number(fields.job_id, job.job_id as nat)
            &&& fields.submit_time == Ok::<i64, Seq<char>>(job.submit_time)
            &&& fields.start_time == Ok::<i64, Seq<char>>(job.start_time)
            &&& holds_number(fields.cpus, job.requested_cpus as nat)
            &&& job.requested_memory % 1_000_000 == 0
            &&& holds_number(fields.memory, (job.requested_memory / 1_000_000) as nat)
            &&& first_containing(lines(out), "JOB_GRES"@) matches Some(line)
            &&& job.is_gpu_job <==> occurs_in(line, "shard"@)
            &&& job.is_gpu_job ==> holds_number(
                fields.gpu_shards,
                job.requested_gpu_shards as nat,
            )
            &&& !job.is_gpu_job ==> job.requested_gpu_shards == 0
            &&& job.requested_gpus.shards == job.requested_gpu_shards
            &&& job.requested_gpus.shards_per_gpu == 2
            &&& job.requested_gpu_memory == 0
        },
{
    if let Ok(job) = described(fields, out) {
        lemma_field_number(fields.user_id, "user_id"@, usize::MAX as nat);
        lemma_field_number(fields.job_id, "job_id"@, u32::MAX as nat);
        lemma_field_number(fields.cpus, "requested_cpus"@, u16::MAX as nat);
        lemma_field_number(fields.memory, "requested_memory"@, u64::MAX as nat);
        lemma_field_number(fields.gpu_shards, "requested_gpu_shards"@, u8::MAX as nat);
    }
}

/// Whatever job it is, its description is read back from fields that hold its texts, its times and
/// numerals for its numbers.
pub proof fn law_description_is_read_back(
    fields: FieldsModel,
    out: Seq<char>,
    line: Seq<char>,
    job: JobModel,
    megabytes: nat,
)
    requires
        fields.user_name == Ok::<Seq<char>, Seq<char>>(job.user_name),
        fields.job_name == Ok::<Seq<char>, Seq<char>>(job.job_name),
        holds_number(fields.user_id, job.user_id as nat),
        holds_number(fields.job_id, job.job_id as nat),
        fields.submit_time == Ok::<i64, Seq<char>>(job.submit_time),
        fields.start_time == Ok::<i64, Seq<char>>(job.start_time),
        holds_number(fields.cpus, job.requested_cpus as nat),
        holds_number(fields.memory, megabytes),
        job.requested_memory == megabytes * 1_000_000,
        job.is_array_task <==> occurs_in(out, "ArrayTaskId"@),
        match job.array_job_id {
            Some(n) => job.is_array_task && holds_number(fields.array_job_id, n as nat),
            None => !job.is_array_task,
        },
        match job.array_task_id {
            Some(n) => job.is_array_task && holds_number(fields.array_task_id, n as nat),
            None => !job.is_array_task,
        },
        first_containing(lines(out), "JOB_GRES"@) == Some(line),
        job.is_gpu_job <==> occurs_in(line, "shard"@),
        job.is_gpu_job ==> holds_number(fields.gpu_shards, job.requested_gpu_shards as nat),
        !job.is_gpu_job ==> job.requested_gpu_shards == 0,
        job.requested_gpus.shards == job.requested_gpu_shards,
        job.requested_gpus.shards_per_gpu == 2,
        job.requested_gpu_memory == 0,
    ensures
        memory_fits(fields, out),
        described(fields, out) == Ok::<JobModel, Seq<char>>(job),
{
    law_number_in_a_field(fields.user_id, "user_id"@, usize::MAX as nat, job.user_id as nat);
    law_number_in_a_field(fields.job_id, "job_id"@, u32::MAX as nat, job.job_id as nat);
    law_number_in_a_field(
        fields.cpus,
        "requested_cpus"@,
        u16::MAX as nat,
        job.requested_cpus as nat,
    );
    law_number_in_a_field(fields.memory, "requested_memory"@, u64::MAX as nat, megabytes);
    if job.is_array_task {
        law_number_in_a_field(
            fields.array_job_id,
            "array_job_id"@,
            u32::MAX as nat,
            job.array_job_id->0 as nat,
        );
        law_number_in_a_field(
            fields.array_task_id,
            "array_task_id"@,
            u32::MAX as nat,
            job.array_task_id->0 as nat,
        );
    }
    if job.is_gpu_job {
        law_number_in_a_field(
            fields.gpu_shards,
            "requested_gpu_shards"@,
            u8::MAX as nat,
            job.requested_gpu_shards as nat,
        );
    }
    assert(described(fields, out)->Ok_0 == job);
}

/// The text of an error, if there is one.
pub open spec fn error_in<T>(r: Result<T, Seq<char>>) -> Option<Seq<char>> {
    match r {
        Ok(_) => None,
        Err(e) => Some(e),
    }
}

/// What can go wrong with the fields up to the memory, in the order in which they are read.
pub open spec fn head_obstacles(fields: FieldsModel, out: Seq<char>) -> Seq<Option<Seq<char>>> {
    let in_array = occurs_in(out, "ArrayTaskId"@);
    seq![
        error_in(fields.user_name),
        error_in(number_in(fields.user_id, "user_id"@, usize::MAX as nat)),
        error_in(number_in(fields.job_id, "job_id"@, 0xffff_ffff)),
        error_in(fields.job_name),
        if in_array {
            error_in(number_in(fields.array_job_id, "array_job_id"@, 0xffff_ffff))
        } else {
            None
        },
        if in_array {
            error_in(number_in(fields.array_task_id, "array_task_id"@, 0xffff_ffff))
        } else {
            None
        },
        error_in(fields.submit_time),
        error_in(fields.start_time),
        error_in(number_in(fields.cpus, "requested_cpus"@, 0xffff)),
        error_in(number_in(fields.memory, "requested_memory"@, 0xffff_ffff_ffff_ffff)),
    ]
}

/// What can go wrong with the resources that were requested.
pub open spec fn resource_obstacles(fields: FieldsModel, out: Seq<char>) -> Seq<Option<Seq<char>>> {
    match first_containing(lines(out), "JOB_GRES"@) {
        None => seq![Some("could not find JOB_GRES line in '"@ + out + "'"@)],
        Some(line) => if occurs_in(line, "shard"@) {
            seq![error_in(number_in(fields.gpu_shards, "requested_gpu_shards"@, 0xff))]
        } else {
            Seq::empty()
        },
    }
}

/// A description is refused with the first thing that goes wrong, and is not refused if nothing
/// does.
pub proof fn law_the_first_error_is_reported(fields: FieldsModel, out: Seq<char>, k: int)
    requires
        ({
            let obstacles = head_obstacles(fields, out) + resource_obstacles(fields, out);
            &&& 0 <= k <= obstacles.len()
            &&& forall|i: int| 0 <= i < k ==> #[trigger] obstacles[i] is None
        }),
    ensures
        ({
            let obstacles = head_obstacles(fields, out) + resource_obstacles(fields, out);
            &&& k < obstacles.len() ==> (obstacles[k] matches Some(e) ==> described(fields, out)
                == Err::<JobModel, Seq<char>>(e))
            &&& k == obstacles.len() ==> described(fields, out) is Ok
        }),
{
    let head = head_obstacles(fields, out);
    let rest = resource_obstacles(fields, out);
    let obstacles = head + rest;
    assert(forall|i: int| 0 <= i < 10 ==> obstacles[i] == head[i]);
    assert(obstacles.len() > 10 ==> obstacles[10] == rest[0]);
    lemma_head_error(fields, out, if k < 10 {
        k
    } else {
        10
    });
}

proof fn lemma_head_error(fields: FieldsModel, out: Seq<char>, k: int)
    requires
        0 <= k <= 10,
        forall|i: int| 0 <= i < k ==> #[trigger] head_obstacles(fields, out)[i] is None,
    ensures
        k < 10 ==> (head_obstacles(fields, out)[k] matches Some(e) ==> fields.head_error(
            tells_of_array(out),
        ) == Some(e)),
        k == 10 ==> fields.head_error(tells_of_array(out)) is None,
{
    let head = head_obstacles(fields, out);
    assert(k > 0 ==> head[0] is None);
    assert(k > 1 ==> head[1] is None);
    assert(k > 2 ==> head[2] is None);
    assert(k > 3 ==> head[3] is None);
    assert(k > 4 ==> head[4] is None);
    assert(k > 5 ==> head[5] is None);
    assert(k > 6 ==> head[6] is None);
    assert(k > 7 ==> head[7] is None);
    assert(k > 8 ==> head[8] is None);
    assert(k > 9 ==> head[9] is None);
}

/// The memory does not fit exactly when nothing goes wrong up to it and it has more bytes than 64
/// bits can tell.
pub proof fn law_only_large_memory_does_not_fit(
    fields: FieldsModel,
    out: Seq<char>,
    k: int,
    megabytes: nat,
)
    requires
        0 <= k <= 10,
        forall|i: int| 0 <= i < k ==> #[trigger] head_obstacles(fields, out)[i] is None,
    ensures
        k < 10 && head_obstacles(fields, out)[k] is Some ==> memory_fits(fields, out),
        holds_number(fields.memory, megabytes) && megabytes * 1_000_000 <= 0xffff_ffff_ffff_ffff
            ==> memory_fits(fields, out),
        k == 10 && holds_number(fields.memory, megabytes) ==> (memory_fits(fields, out)
            <==> megabytes * 1_000_000 <= 0xffff_ffff_ffff_ffff),
{
    lemma_head_error(fields, out, k);
    law_number_in_a_field(fields.memory, "requested_memory"@, u64::MAX as nat, megabytes);
    lemma_field_number(fields.memory, "requested_memory"@, u64::MAX as nat);
}

/// A result follows a description if it is the described job, which needs the memory of a GPU
/// exactly when it uses one, or an error with the same text.
pub proof fn law_results_follow_the_description(
    r: Result<JobStep, String>,
    job: JobModel,
    text: Seq<char>,
)
    ensures
        JobStep::follows(r, Err(text)) <==> r is Err && r->Err_0@ == text,
        JobStep::follows(r, Ok(job)) ==> match r {
            Ok(JobStep::Complete(info)) => info@ == job && !job.is_gpu_job,
            Ok(JobStep::NeedsGpuMemory(pending)) => pending.job@ == job && job.is_gpu_job,
            Err(_) => false,
        },
{
}

} // verus!
