//! The course of the monitoring: what is read next, and when a record is written.

use crate::job::JobInfo;
use crate::listing::JobPIDs;
use crate::number::to_decimal;
use vstd::prelude::*;

verus! {

use crate::command::views;
use crate::number::{decimal, is_numeral_of, law_decimal_is_its_numeral};

/// What a job uses at a point in time.
#[derive(Clone, Copy, Debug, PartialEq, Eq, Structural)]
pub struct JobResourceUsage {
    /// The processor time since the beginning of the job, in microseconds.
    pub cpu_utilization: u64,
    /// The memory in bytes.
    pub memory: u64,
    /// The use of the GPUs.
    pub gpu_utilization: u32,
    /// The memory of the GPUs in bytes.
    pub gpu_memory: u64,
}

/// What the monitor waits for.
#[derive(Debug)]
pub enum Stage {
    /// The processes of the job.
    Pids,
    /// The time at which the use is measured.
    Time { pids: Vec<u32> },
    /// The processor time.
    Cpu { pids: Vec<u32>, timestamp: String },
    /// The memory.
    Memory { pids: Vec<u32>, timestamp: String, cpu: u64 },
    /// The use of the GPUs.
    Gpu { timestamp: String, cpu: u64, memory: u64 },
    /// That the record is written.
    Write,
    /// The end of the pause.
    Pause,
    /// Nothing: the monitoring is over.
    Over,
}

/// What is to be done next.
#[derive(Debug)]
pub enum Action {
    /// List the processes of a job.
    ListPids { job_id: u32 },
    /// Look at the clock.
    TakeTime,
    /// Read the processor time of a job.
    ReadCpu { job_id: u32 },
    /// Read the memory of a job.
    ReadMemory { job_id: u32 },
    /// Read the use that the processes make of the GPUs.
    ReadGpu { pids: Vec<u32> },
    /// Write a record.
    Write { timestamp: String, usage: JobResourceUsage },
    /// Pause until the next measurement.
    Pause,
    /// Stop, with success or an error.
    Stop(Result<(), String>),
}

/// What has happened.
#[derive(Debug)]
pub enum Event {
    Pids(Result<JobPIDs, String>),
    Time(String),
    Cpu(Result<u64, String>),
    Memory(Result<u64, String>),
    Gpu(Result<(u32, u64), String>),
    Written(Result<(), String>),
    PauseOver,
}

/// The monitoring of a job.
#[derive(Debug)]
pub struct Monitor {
    /// The job.
    pub job_id: u32,
    /// Whether the job uses a GPU.
    pub is_gpu_job: bool,
    /// What the monitor waits for.
    pub stage: Stage,
}

/// Whether an event is what a stage waits for.
pub open spec fn awaited(stage: Stage, event: Event) -> bool {
    match stage {
        Stage::Pids => event is Pids,
        Stage::Time { .. } => event is Time,
        Stage::Cpu { .. } => event is Cpu,
        Stage::Memory { .. } => event is Memory,
        Stage::Gpu { .. } => event is Gpu,
        Stage::Write => event is Written,
        Stage::Pause => event is PauseOver,
        Stage::Over => false,
    }
}

/// The stage and the action that follow an event.
pub open spec fn after(job_id: u32, is_gpu_job: bool, stage: Stage, event: Event) -> (
    Stage,
    Action,
) {
    match (stage, event) {
        (Stage::Pids, Event::Pids(Ok(JobPIDs::PIDs(pids)))) => (
            Stage::Time { pids },
            Action::TakeTime,
        ),
        (Stage::Pids, Event::Pids(Ok(JobPIDs::JobFinished))) => (Stage::Over, Action::Stop(Ok(()))),
        (Stage::Time { pids }, Event::Time(timestamp)) => (
            Stage::Cpu { pids, timestamp },
            Action::ReadCpu { job_id },
        ),
        (Stage::Cpu { pids, timestamp }, Event::Cpu(Ok(cpu))) => (
            Stage::Memory { pids, timestamp, cpu },
            Action::ReadMemory { job_id },
        ),
        (Stage::Memory { pids, timestamp, cpu }, Event::Memory(Ok(memory))) => if is_gpu_job {
            (Stage::Gpu { timestamp, cpu, memory }, Action::ReadGpu { pids })
        } else {
            (
                Stage::Write,
                Action::Write {
                    timestamp,
                    usage: JobResourceUsage {
                        cpu_utilization: cpu,
                        memory,
                        gpu_utilization: 0,
                        gpu_memory: 0,
                    },
                },
            )
        },
        (Stage::Gpu { timestamp, cpu, memory }, Event::Gpu(Ok((utilization, bytes)))) => (
            Stage::Write,
            Action::Write {
                timestamp,
                usage: JobResourceUsage {
                    cpu_utilization: cpu,
                    memory,
                    gpu_utilization: utilization,
                    gpu_memory: bytes,
                },
            },
        ),
        (Stage::Write, Event::Written(Ok(_))) => (Stage::Pause, Action::Pause),
        (Stage::Pause, Event::PauseOver) => (Stage::Pids, Action::ListPids { job_id }),
        (_, Event::Pids(Err(e))) => (Stage::Over, Action::Stop(Err(e))),
        (_, Event::Cpu(Err(e))) => (Stage::Over, Action::Stop(Err(e))),
        (_, Event::Memory(Err(e))) => (Stage::Over, Action::Stop(Err(e))),
        (_, Event::Gpu(Err(e))) => (Stage::Over, Action::Stop(Err(e))),
        (_, Event::Written(Err(e))) => (Stage::Over, Action::Stop(Err(e))),
        _ => arbitrary(),
    }
}

impl Monitor {
    /// Starts the monitoring of a job. The first thing to do is to list its processes.
    pub fn new(job: &JobInfo) -> (r: (Monitor, Action))
        ensures
            r.0 == (Monitor {
                job_id: job.job_id,
                is_gpu_job: job.is_gpu_job,
                stage: Stage::Pids,
            }),
            r.1 == (Action::ListPids { job_id: job.job_id }),
    {
        let job_id: u32 = job.job_id;
        let is_gpu_job: bool = job.is_gpu_job;
        (Monitor { job_id, is_gpu_job, stage: Stage::Pids }, Action::ListPids { job_id })
    }

    /// Whether an event is what the monitor waits for.
    pub fn awaits(&self, event: &Event) -> (b: bool)
        ensures
            b == awaited(self.stage, *event),
    {
        match (&self.stage, event) {
            (Stage::Pids, Event::Pids(_)) => true,
            (Stage::Time { .. }, Event::Time(_)) => true,
            (Stage::Cpu { .. }, Event::Cpu(_)) => true,
            (Stage::Memory { .. }, Event::Memory(_)) => true,
            (Stage::Gpu { .. }, Event::Gpu(_)) => true,
            (Stage::Write, Event::Written(_)) => true,
            (Stage::Pause, Event::PauseOver) => true,
            _ => false,
        }
    }

    /// Goes on after an event.
    pub fn step(self, event: Event) -> (r: (Monitor, Action))
        requires
            awaited(self.stage, event),
        ensures
            r.0.job_id == self.job_id,
            r.0.is_gpu_job == self.is_gpu_job,
            (r.0.stage, r.1) == after(self.job_id, self.is_gpu_job, self.stage, event),
    {
        let job_id: u32 = self.job_id;
        let is_gpu_job: bool = self.is_gpu_job;
        let (stage, action) = match (self.stage, event) {
            (Stage::Pids, Event::Pids(Ok(JobPIDs::PIDs(pids)))) => (
                Stage::Time { pids },
                Action::TakeTime,
            ),
            (Stage::Pids, Event::Pids(Ok(JobPIDs::JobFinished))) => (
                Stage::Over,
                Action::Stop(Ok(())),
            ),
            (Stage::Time { pids }, Event::Time(timestamp)) => (
                Stage::Cpu { pids, timestamp },
                Action::ReadCpu { job_id },
            ),
            (Stage::Cpu { pids, timestamp }, Event::Cpu(Ok(cpu))) => (
                Stage::Memory { pids, timestamp, cpu },
                Action::ReadMemory { job_id },
            ),
            (Stage::Memory { pids, timestamp, cpu }, Event::Memory(Ok(memory))) => if is_gpu_job {
                (Stage::Gpu { timestamp, cpu, memory }, Action::ReadGpu { pids })
            } else {
                let usage = JobResourceUsage {
                    cpu_utilization: cpu,
                    memory,
                    gpu_utilization: 0,
                    gpu_memory: 0,
                };
                (Stage::Write, Action::Write { timestamp, usage })
            },
            (Stage::Gpu { timestamp, cpu, memory }, Event::Gpu(Ok((utilization, bytes)))) => {
                let usage = JobResourceUsage {
                    cpu_utilization: cpu,
                    memory,
                    gpu_utilization: utilization,
                    gpu_memory: bytes,
                };
                (Stage::Write, Action::Write { timestamp, usage })
            },
            (Stage::Write, Event::Written(Ok(_))) => (Stage::Pause, Action::Pause),
            (Stage::Pause, Event::PauseOver) => (Stage::Pids, Action::ListPids { job_id }),
            (_, Event::Pids(Err(e))) => (Stage::Over, Action::Stop(Err(e))),
            (_, Event::Cpu(Err(e))) => (Stage::Over, Action::Stop(Err(e))),
            (_, Event::Memory(Err(e))) => (Stage::Over, Action::Stop(Err(e))),
            (_, Event::Gpu(Err(e))) => (Stage::Over, Action::Stop(Err(e))),
            (_, Event::Written(Err(e))) => (Stage::Over, Action::Stop(Err(e))),
            _ => vstd::pervasive::unreached(),
        };
        (Monitor { job_id, is_gpu_job, stage }, action)
    }
}

/// The names of the columns of a record.
pub open spec fn columns() -> Seq<Seq<char>> {
    seq!["timestamp"@, "cpu_usage"@, "memory"@, "gpu_usage"@, "gpu_memory"@]
}

/// The record of a measurement: one text for each column.
pub open spec fn record_of(timestamp: Seq<char>, usage: JobResourceUsage) -> Seq<Seq<char>> {
    seq![
        timestamp,
        decimal(usage.cpu_utilization as nat),
        decimal(usage.memory as nat),
        decimal(usage.gpu_utilization as nat),
        decimal(usage.gpu_memory as nat),
    ]
}

/// The names of the columns, which make up the first record.
pub fn usage_header() -> (header: Vec<String>)
    ensures
        views(header@) == columns(),
{
    let mut header: Vec<String> = Vec::new();
    header.push("timestamp".to_owned());
    header.push("cpu_usage".to_owned());
    header.push("memory".to_owned());
    header.push("gpu_usage".to_owned());
    header.push("gpu_memory".to_owned());
    assert(views(header@) =~= columns());
    header
}

/// The record of a measurement at the given time.
pub fn usage_record(timestamp: String, usage: &JobResourceUsage) -> (record: Vec<String>)
    ensures
        views(record@) == record_of(timestamp@, *usage),
{
    let mut record: Vec<String> = Vec::new();
    record.push(timestamp);
    record.push(to_decimal(usage.cpu_utilization));
    record.push(to_decimal(usage.memory));
    record.push(to_decimal(usage.gpu_utilization as u64));
    record.push(to_decimal(usage.gpu_memory));
    assert(views(record@) =~= record_of(timestamp@, *usage));
    record
}

/// The file that the records are written to.
pub fn usage_stats_path(output_dir: &str) -> (path: String)
    ensures
        path@ == output_dir@ + "/usage_stats.csv"@,
{
    output_dir.to_owned().concat("/usage_stats.csv")
}

/// A record has a text for each column.
pub proof fn law_record_has_all_columns(timestamp: Seq<char>, usage: JobResourceUsage)
    ensures
        record_of(timestamp, usage).len() == columns().len(),
{
}

/// Two measurements with the same record are the same.
pub proof fn law_record_tells_the_usage(
    timestamp_a: Seq<char>,
    a: JobResourceUsage,
    timestamp_b: Seq<char>,
    b: JobResourceUsage,
)
    requires
        record_of(timestamp_a, a) == record_of(timestamp_b, b),
    ensures
        timestamp_a == timestamp_b,
        a == b,
{
    let (ra, rb) = (record_of(timestamp_a, a), record_of(timestamp_b, b));
    assert(forall|i: int| 0 <= i < 5 ==> ra[i] == rb[i]);
    assert(ra[0] == timestamp_a && rb[0] == timestamp_b);
    assert(ra[1] == rb[1] && ra[2] == rb[2] && ra[3] == rb[3] && ra[4] == rb[4]);
    crate::number::law_decimal_is_injective(
        a.cpu_utilization as nat,
        b.cpu_utilization as nat,
    );
    crate::number::law_decimal_is_injective(a.memory as nat, b.memory as nat);
    crate::number::law_decimal_is_injective(
        a.gpu_utilization as nat,
        b.gpu_utilization as nat,
    );
    crate::number::law_decimal_is_injective(a.gpu_memory as nat, b.gpu_memory as nat);
}

/// The stage that a sequence of events leads to.
pub open spec fn stage_after(
    job_id: u32,
    is_gpu_job: bool,
    stage: Stage,
    events: Seq<Event>,
) -> Stage
    decreases events.len(),
{
    if events.len() == 0 {
        stage
    } else {
        let before = stage_after(job_id, is_gpu_job, stage, events.drop_last());
        after(job_id, is_gpu_job, before, events.last()).0
    }
}

/// The actions that follow a sequence of events, one after each event.
pub open spec fn actions_after(
    job_id: u32,
    is_gpu_job: bool,
    stage: Stage,
    events: Seq<Event>,
) -> Seq<Action>
    decreases events.len(),
{
    if events.len() == 0 {
        Seq::empty()
    } else {
        let before = stage_after(job_id, is_gpu_job, stage, events.drop_last());
        actions_after(job_id, is_gpu_job, stage, events.drop_last()).push(
            after(job_id, is_gpu_job, before, events.last()).1,
        )
    }
}

/// Whether each event of a sequence is awaited when it happens.
pub open spec fn all_awaited(
    job_id: u32,
    is_gpu_job: bool,
    stage: Stage,
    events: Seq<Event>,
) -> bool
    decreases events.len(),
{
    events.len() > 0 ==> {
        &&& all_awaited(job_id, is_gpu_job, stage, events.drop_last())
        &&& awaited(stage_after(job_id, is_gpu_job, stage, events.drop_last()), events.last())
    }
}

/// Whether a stage can be reached: the use of GPUs is waited for only if the job uses one.
pub open spec fn sound(is_gpu_job: bool, stage: Stage) -> bool {
    stage is Gpu ==> is_gpu_job
}

/// How many times the processes of the job were listed.
pub open spec fn listings(events: Seq<Event>) -> nat
    decreases events.len(),
{
    if events.len() == 0 {
        0
    } else {
        listings(events.drop_last()) + (if events.last() matches Event::Pids(
            Ok(JobPIDs::PIDs(_)),
        ) {
            1nat
        } else {
            0
        })
    }
}

/// How many records were written.
pub open spec fn records(actions: Seq<Action>) -> nat
    decreases actions.len(),
{
    if actions.len() == 0 {
        0
    } else {
        records(actions.drop_last()) + (if actions.last() is Write {
            1nat
        } else {
            0
        })
    }
}

/// Every event that is awaited leads from a sound stage to a sound one, and GPUs are read only for
/// a job that uses one.
pub proof fn law_gpus_are_read_for_gpu_jobs_only(
    job_id: u32,
    is_gpu_job: bool,
    stage: Stage,
    event: Event,
)
    requires
        sound(is_gpu_job, stage),
        awaited(stage, event),
    ensures
        sound(is_gpu_job, after(job_id, is_gpu_job, stage, event).0),
        after(job_id, is_gpu_job, stage, event).1 is ReadGpu ==> is_gpu_job,
        after(job_id, is_gpu_job, stage, event).1 matches Action::Write { usage, .. } ==> {
            !is_gpu_job ==> usage.gpu_utilization == 0 && usage.gpu_memory == 0
        },
{
}

/// Whether an action that lists processes, or that reads the processor time or the memory, is about
/// the given job.
pub open spec fn is_about(action: Action, job: u32) -> bool {
    match action {
        Action::ListPids { job_id } => job_id == job,
        Action::ReadCpu { job_id } => job_id == job,
        Action::ReadMemory { job_id } => job_id == job,
        _ => true,
    }
}

/// In every run the processes that are listed, and the processor time and the memory that are read,
/// are those of the job that is monitored.
pub proof fn law_only_the_job_is_read(job_id: u32, is_gpu_job: bool, events: Seq<Event>)
    requires
        all_awaited(job_id, is_gpu_job, Stage::Pids, events),
    ensures
        forall|i: int|
            0 <= i < events.len() ==> is_about(
                #[trigger] actions_after(job_id, is_gpu_job, Stage::Pids, events)[i],
                job_id,
            ),
        actions_after(job_id, is_gpu_job, Stage::Pids, events).len() == events.len(),
    decreases events.len(),
{
    if events.len() > 0 {
        let before = actions_after(job_id, is_gpu_job, Stage::Pids, events.drop_last());
        let actions = actions_after(job_id, is_gpu_job, Stage::Pids, events);
        law_only_the_job_is_read(job_id, is_gpu_job, events.drop_last());
        assert forall|i: int| 0 <= i < events.len() implies is_about(
            #[trigger] actions[i],
            job_id,
        ) by {
            if i < events.len() - 1 {
                assert(actions[i] == before[i]);
            }
        }
    }
}

/// The error of an event, if it has one.
pub open spec fn error_of(event: Event) -> Option<String> {
    match event {
        Event::Pids(Err(e)) => Some(e),
        Event::Cpu(Err(e)) => Some(e),
        Event::Memory(Err(e)) => Some(e),
        Event::Gpu(Err(e)) => Some(e),
        Event::Written(Err(e)) => Some(e),
        _ => None,
    }
}

/// An error stops the monitoring with that error, and nothing but an error or the end of the job
/// stops it.
pub proof fn law_errors_stop_the_monitoring(
    job_id: u32,
    is_gpu_job: bool,
    stage: Stage,
    event: Event,
)
    requires
        awaited(stage, event),
    ensures
        error_of(event) matches Some(e) ==> after(job_id, is_gpu_job, stage, event) == (
            Stage::Over,
            Action::Stop(Err(e)),
        ),
        after(job_id, is_gpu_job, stage, event).1 is Stop ==> error_of(event) is Some || event
            == Event::Pids(Ok(JobPIDs::JobFinished)),
        after(job_id, is_gpu_job, stage, event).0 is Over <==> after(
            job_id,
            is_gpu_job,
            stage,
            event,
        ).1 is Stop,
{
}

/// One round for a job without a GPU: the processes are listed, the clock, the processor time and
/// the memory are read in this order, and a record of them is written before the pause.
pub proof fn law_round_without_gpu(
    job_id: u32,
    pids: Vec<u32>,
    timestamp: String,
    cpu: u64,
    memory: u64,
)
    ensures
        ({
            let events = seq![
                Event::Pids(Ok(JobPIDs::PIDs(pids))),
                Event::Time(timestamp),
                Event::Cpu(Ok(cpu)),
                Event::Memory(Ok(memory)),
                Event::Written(Ok(())),
                Event::PauseOver,
            ];
            let usage = JobResourceUsage {
                cpu_utilization: cpu,
                memory,
                gpu_utilization: 0,
                gpu_memory: 0,
            };
            &&& all_awaited(job_id, false, Stage::Pids, events)
            &&& stage_after(job_id, false, Stage::Pids, events) == Stage::Pids
            &&& actions_after(job_id, false, Stage::Pids, events) == seq![
                Action::TakeTime,
                Action::ReadCpu { job_id },
                Action::ReadMemory { job_id },
                Action::Write { timestamp, usage },
                Action::Pause,
                Action::ListPids { job_id },
            ]
        }),
{
    let e0 = Seq::<Event>::empty();
    let e1 = e0.push(Event::Pids(Ok(JobPIDs::PIDs(pids))));
    let e2 = e1.push(Event::Time(timestamp));
    let e3 = e2.push(Event::Cpu(Ok(cpu)));
    let e4 = e3.push(Event::Memory(Ok(memory)));
    let e5 = e4.push(Event::Written(Ok(())));
    let e6 = e5.push(Event::PauseOver);
    lemma_run(job_id, false, e0, Event::Pids(Ok(JobPIDs::PIDs(pids))));
    lemma_run(job_id, false, e1, Event::Time(timestamp));
    lemma_run(job_id, false, e2, Event::Cpu(Ok(cpu)));
    lemma_run(job_id, false, e3, Event::Memory(Ok(memory)));
    lemma_run(job_id, false, e4, Event::Written(Ok(())));
    lemma_run(job_id, false, e5, Event::PauseOver);
    assert(e6 =~= seq![
        Event::Pids(Ok(JobPIDs::PIDs(pids))),
        Event::Time(timestamp),
        Event::Cpu(Ok(cpu)),
        Event::Memory(Ok(memory)),
        Event::Written(Ok(())),
        Event::PauseOver,
    ]);
}

/// One round for a job with a GPU: after the memory the use of the GPUs is read for the processes
/// that were listed, and is part of the record.
pub proof fn law_round_with_gpu(
    job_id: u32,
    pids: Vec<u32>,
    timestamp: String,
    cpu: u64,
    memory: u64,
    utilization: u32,
    bytes: u64,
)
    ensures
        ({
            let events = seq![
                Event::Pids(Ok(JobPIDs::PIDs(pids))),
                Event::Time(timestamp),
                Event::Cpu(Ok(cpu)),
                Event::Memory(Ok(memory)),
                Event::Gpu(Ok((utilization, bytes))),
                Event::Written(Ok(())),
                Event::PauseOver,
            ];
            let usage = JobResourceUsage {
                cpu_utilization: cpu,
                memory,
                gpu_utilization: utilization,
                gpu_memory: bytes,
            };
            &&& all_awaited(job_id, true, Stage::Pids, events)
            &&& stage_after(job_id, true, Stage::Pids, events) == Stage::Pids
            &&& actions_after(job_id, true, Stage::Pids, events) == seq![
                Action::TakeTime,
                Action::ReadCpu { job_id },
                Action::ReadMemory { job_id },
                Action::ReadGpu { pids },
                Action::Write { timestamp, usage },
                Action::Pause,
                Action::ListPids { job_id },
            ]
        }),
{
    let e0 = Seq::<Event>::empty();
    let e1 = e0.push(Event::Pids(Ok(JobPIDs::PIDs(pids))));
    let e2 = e1.push(Event::Time(timestamp));
    let e3 = e2.push(Event::Cpu(Ok(cpu)));
    let e4 = e3.push(Event::Memory(Ok(memory)));
    let e5 = e4.push(Event::Gpu(Ok((utilization, bytes))));
    let e6 = e5.push(Event::Written(Ok(())));
    let e7 = e6.push(Event::PauseOver);
    lemma_run(job_id, true, e0, Event::Pids(Ok(JobPIDs::PIDs(pids))));
    lemma_run(job_id, true, e1, Event::Time(timestamp));
    lemma_run(job_id, true, e2, Event::Cpu(Ok(cpu)));
    lemma_run(job_id, true, e3, Event::Memory(Ok(memory)));
    lemma_run(job_id, true, e4, Event::Gpu(Ok((utilization, bytes))));
    lemma_run(job_id, true, e5, Event::Written(Ok(())));
    lemma_run(job_id, true, e6, Event::PauseOver);
    assert(e7 =~= seq![
        Event::Pids(Ok(JobPIDs::PIDs(pids))),
        Event::Time(timestamp),
        Event::Cpu(Ok(cpu)),
        Event::Memory(Ok(memory)),
        Event::Gpu(Ok((utilization, bytes))),
        Event::Written(Ok(())),
        Event::PauseOver,
    ]);
}

/// How one more event continues a run.
proof fn lemma_run(job_id: u32, is_gpu_job: bool, events: Seq<Event>, event: Event)
    ensures
        ({
            let start = Stage::Pids;
            let before = stage_after(job_id, is_gpu_job, start, events);
            let next = after(job_id, is_gpu_job, before, event);
            &&& stage_after(job_id, is_gpu_job, start, events.push(event)) == next.0
            &&& actions_after(job_id, is_gpu_job, start, events.push(event)) == actions_after(
                job_id,
                is_gpu_job,
                start,
                events,
            ).push(next.1)
            &&& all_awaited(job_id, is_gpu_job, start, events.push(event)) <==> all_awaited(
                job_id,
                is_gpu_job,
                start,
                events,
            ) && awaited(before, event)
        }),
{
    assert(events.push(event).drop_last() =~= events);
}

/// Whether a stage lies between a listing of processes and the record that goes with it.
pub open spec fn is_measuring(stage: Stage) -> bool {
    stage is Time || stage is Cpu || stage is Memory || stage is Gpu
}

/// In every run there is one record for each listing of processes, but for the listing whose
/// measurement is not finished yet or was stopped by an error.
pub proof fn law_one_record_per_listing(job_id: u32, is_gpu_job: bool, events: Seq<Event>)
    requires
        all_awaited(job_id, is_gpu_job, Stage::Pids, events),
    ensures
        ({
            let stage = stage_after(job_id, is_gpu_job, Stage::Pids, events);
            let written = records(actions_after(job_id, is_gpu_job, Stage::Pids, events));
            &&& is_measuring(stage) ==> listings(events) == written + 1
            &&& !is_measuring(stage) && !(stage is Over) ==> listings(events) == written
            &&& written <= listings(events) <= written + 1
        }),
    decreases events.len(),
{
    if events.len() > 0 {
        law_one_record_per_listing(job_id, is_gpu_job, events.drop_last());
        let actions = actions_after(job_id, is_gpu_job, Stage::Pids, events);
        assert(actions.drop_last() =~= actions_after(
            job_id,
            is_gpu_job,
            Stage::Pids,
            events.drop_last(),
        ));
    }
}

/// The columns have these names, each of them once.
pub proof fn law_names_of_the_columns(i: int)
    requires
        0 <= i < columns().len(),
    ensures
        columns().len() == 5,
        columns()[i] == "timestamp"@ <==> i == 0,
        columns()[i] == "cpu_usage"@ <==> i == 1,
        columns()[i] == "memory"@ <==> i == 2,
        columns()[i] == "gpu_usage"@ <==> i == 3,
        columns()[i] == "gpu_memory"@ <==> i == 4,
{
    reveal_strlit("timestamp");
    reveal_strlit("cpu_usage");
    reveal_strlit("memory");
    reveal_strlit("gpu_usage");
    reveal_strlit("gpu_memory");
    assert("timestamp"@.len() == 9 && "cpu_usage"@.len() == 9 && "memory"@.len() == 6
        && "gpu_usage"@.len() == 9 && "gpu_memory"@.len() == 10);
    assert("timestamp"@[0] == 't' && "cpu_usage"@[0] == 'c' && "gpu_usage"@[0] == 'g');
}

/// In every record each value stands under the name of its column: the time as it is, and the
/// measured numbers as their numerals.
pub proof fn law_values_stand_in_their_columns(
    timestamp: Seq<char>,
    usage: JobResourceUsage,
    i: int,
)
    requires
        0 <= i < columns().len(),
    ensures
        record_of(timestamp, usage).len() == columns().len(),
        columns()[i] == "timestamp"@ ==> record_of(timestamp, usage)[i] == timestamp,
        columns()[i] == "cpu_usage"@ ==> record_of(timestamp, usage)[i] == decimal(
            usage.cpu_utilization as nat,
        ) && is_numeral_of(record_of(timestamp, usage)[i], usage.cpu_utilization as nat),
        columns()[i] == "memory"@ ==> record_of(timestamp, usage)[i] == decimal(
            usage.memory as nat,
        ) && is_numeral_of(record_of(timestamp, usage)[i], usage.memory as nat),
        columns()[i] == "gpu_usage"@ ==> record_of(timestamp, usage)[i] == decimal(
            usage.gpu_utilization as nat,
        ) && is_numeral_of(record_of(timestamp, usage)[i], usage.gpu_utilization as nat),
        columns()[i] == "gpu_memory"@ ==> record_of(timestamp, usage)[i] == decimal(
            usage.gpu_memory as nat,
        ) && is_numeral_of(record_of(timestamp, usage)[i], usage.gpu_memory as nat),
{
    law_names_of_the_columns(i);
    law_decimal_is_its_numeral(usage.cpu_utilization as nat);
    law_decimal_is_its_numeral(usage.memory as nat);
    law_decimal_is_its_numeral(usage.gpu_utilization as nat);
    law_decimal_is_its_numeral(usage.gpu_memory as nat);
}

/// Each stage waits for one kind of event, whether it brings a value or an error, and nothing is
/// awaited when the monitoring is over.
pub proof fn law_each_stage_awaits_its_event(stage: Stage, event: Event)
    ensures
        event is Pids ==> (awaited(stage, event) <==> stage is Pids),
        event is Time ==> (awaited(stage, event) <==> stage is Time),
        event is Cpu ==> (awaited(stage, event) <==> stage is Cpu),
        event is Memory ==> (awaited(stage, event) <==> stage is Memory),
        event is Gpu ==> (awaited(stage, event) <==> stage is Gpu),
        event is Written ==> (awaited(stage, event) <==> stage is Write),
        event is PauseOver ==> (awaited(stage, event) <==> stage is Pause),
        stage is Over ==> !awaited(stage, event),
{
}

/// A finished job ends the monitoring with success, in whatever round it is found.
pub proof fn law_the_end_of_the_job_is_a_success(job_id: u32, is_gpu_job: bool)
    ensures
        after(job_id, is_gpu_job, Stage::Pids, Event::Pids(Ok(JobPIDs::JobFinished))) == (
            Stage::Over,
            Action::Stop(Ok(())),
        ),
{
}

/// What is measured is written as it was measured: the record has the processor time, the memory
/// and the use of the GPUs that were read, and the time that was taken before them.
pub proof fn law_measurements_are_written_unchanged(
    job_id: u32,
    is_gpu_job: bool,
    pids: Vec<u32>,
    timestamp: String,
    cpu: u64,
    memory: u64,
    utilization: u32,
    bytes: u64,
)
    ensures
        after(job_id, is_gpu_job, Stage::Pids, Event::Pids(Ok(JobPIDs::PIDs(pids)))) == (
            Stage::Time { pids },
            Action::TakeTime,
        ),
        after(job_id, is_gpu_job, Stage::Time { pids }, Event::Time(timestamp)) == (
            Stage::Cpu { pids, timestamp },
            Action::ReadCpu { job_id },
        ),
        after(job_id, is_gpu_job, Stage::Cpu { pids, timestamp }, Event::Cpu(Ok(cpu))) == (
            Stage::Memory { pids, timestamp, cpu },
            Action::ReadMemory { job_id },
        ),
        !is_gpu_job ==> after(
            job_id,
            is_gpu_job,
            Stage::Memory { pids, timestamp, cpu },
            Event::Memory(Ok(memory)),
        ) == (
            Stage::Write,
            Action::Write {
                timestamp,
                usage: JobResourceUsage {
                    cpu_utilization: cpu,
                    memory,
                    gpu_utilization: 0,
                    gpu_memory: 0,
                },
            },
        ),
        is_gpu_job ==> after(
            job_id,
            is_gpu_job,
            Stage::Memory { pids, timestamp, cpu },
            Event::Memory(Ok(memory)),
        ) == (Stage::Gpu { timestamp, cpu, memory }, Action::ReadGpu { pids }),
        after(
            job_id,
            is_gpu_job,
            Stage::Gpu { timestamp, cpu, memory },
            Event::Gpu(Ok((utilization, bytes))),
        ) == (
            Stage::Write,
            Action::Write {
                timestamp,
                usage: JobResourceUsage {
                    cpu_utilization: cpu,
                    memory,
                    gpu_utilization: utilization,
                    gpu_memory: bytes,
                },
            },
        ),
        after(job_id, is_gpu_job, Stage::Write, Event::Written(Ok(()))) == (
            Stage::Pause,
            Action::Pause,
        ),
        after(job_id, is_gpu_job, Stage::Pause, Event::PauseOver) == (
            Stage::Pids,
            Action::ListPids { job_id },
        ),
{
}

} // verus!
