//! The printer job compiler and dispatcher.
//!
//! `compile` turns a message into the fixed nine-command job; `Dispatcher`
//! walks that job strictly in order, stops at the first device fault, and
//! reports the failing step with its cause. The physical device itself is an
//! opaque fallible capability: whoever drives the dispatcher performs each
//! issued command on the hardware and reports back whether it succeeded.

use crate::clock::{timestamp_seq, format_timestamp};
use crate::message::FaxMessage;
use vstd::prelude::*;
use vstd::string::StringExecFns;

verus! {

/// One printer command.
#[derive(Debug, Clone)]
pub enum Command {
    /// Initialize the device.
    Init,
    /// Left-justify output.
    JustifyLeft,
    /// Enable font smoothing.
    EnableSmoothing,
    /// Print one line of text.
    WriteLine(String),
    /// Advance the paper one blank line.
    Feed,
    /// Cut the paper.
    Cut,
}

/// The mathematical image of a command.
pub enum CommandModel {
    Init,
    JustifyLeft,
    EnableSmoothing,
    WriteLine(Seq<char>),
    Feed,
    Cut,
}

/// A command's mathematical image.
pub open spec fn command_model(c: Command) -> CommandModel {
    match c {
        Command::Init => CommandModel::Init,
        Command::JustifyLeft => CommandModel::JustifyLeft,
        Command::EnableSmoothing => CommandModel::EnableSmoothing,
        Command::WriteLine(line) => CommandModel::WriteLine(line@),
        Command::Feed => CommandModel::Feed,
        Command::Cut => CommandModel::Cut,
    }
}

/// A job's mathematical image, command by command.
pub open spec fn job_model(job: Seq<Command>) -> Seq<CommandModel> {
    job.map_values(|c: Command| command_model(c))
}

/// The origin line printed under a message: `sender - address`.
pub open spec fn origin_seq(from: Seq<char>, ip: Seq<char>) -> Seq<char> {
    from + seq![' ', '-', ' '] + ip
}

/// Renders the origin line `from - ip`.
pub fn format_origin(from: &String, ip: &String) -> (s: String)
    ensures
        s@ == origin_seq(from@, ip@),
{
    proof {
        reveal_strlit(" - ");
        assert(" - "@ =~= seq![' ', '-', ' ']);
    }
    let mut s = String::from_str(from.as_str());
    s.append(" - ");
    s.append(ip.as_str());
    proof {
        assert(s@ =~= origin_seq(from@, ip@));
    }
    s
}

/// The nine-command job for a message, in dispatch order: initialize, set
/// justify, enable smoothing, write the timestamp line, feed, write the body,
/// feed, write the origin line, cut.
pub open spec fn compile_spec(
    time: crate::clock::LocalInstant,
    body: Seq<char>,
    from: Seq<char>,
    ip: Seq<char>,
) -> Seq<CommandModel> {
    seq![
        CommandModel::Init,
        CommandModel::JustifyLeft,
        CommandModel::EnableSmoothing,
        CommandModel::WriteLine(timestamp_seq(time)),
        CommandModel::Feed,
        CommandModel::WriteLine(body),
        CommandModel::Feed,
        CommandModel::WriteLine(origin_seq(from, ip)),
        CommandModel::Cut,
    ]
}

/// Compiles a message into its ordered printer-command job.
pub fn compile(msg: &FaxMessage) -> (job: Vec<Command>)
    requires
        msg.time.wf(),
    ensures
        job_model(job@) == compile_spec(msg.time, msg.message@, msg.from@, msg.ip@),
        job@.len() == 9,
{
    let mut job: Vec<Command> = Vec::new();
    job.push(Command::Init);
    job.push(Command::JustifyLeft);
    job.push(Command::EnableSmoothing);
    job.push(Command::WriteLine(format_timestamp(&msg.time)));
    job.push(Command::Feed);
    job.push(Command::WriteLine(msg.message.clone()));
    job.push(Command::Feed);
    job.push(Command::WriteLine(format_origin(&msg.from, &msg.ip)));
    job.push(Command::Cut);
    proof {
        assert(job_model(job@) =~= compile_spec(msg.time, msg.message@, msg.from@, msg.ip@));
    }
    job
}

/// What the device reported for one executed command.
#[derive(Debug, Clone)]
pub enum DeviceOutcome {
    /// The command took effect.
    Success,
    /// The command failed, with the device's description of the fault.
    Failure(String),
}

/// The terminal state of one dispatched job.
#[derive(Debug, Clone)]
pub enum DispatchResult {
    /// Every command executed.
    Done,
    /// The command at `step` failed with `cause`; no later step executed.
    Faulted { step: usize, cause: String },
}

/// The index of the first failing outcome, if any outcome fails.
pub open spec fn first_failure(outcomes: Seq<DeviceOutcome>) -> Option<int>
    decreases outcomes.len(),
{
    if outcomes.len() == 0 {
        None
    } else if !(outcomes[0] is Success) {
        Some(0)
    } else {
        match first_failure(outcomes.drop_first()) {
            None => None,
            Some(k) => Some(k + 1),
        }
    }
}

/// `first_failure` points at the failing index that every earlier outcome
/// precedes successfully.
proof fn lemma_first_failure_at(outcomes: Seq<DeviceOutcome>, k: int)
    requires
        0 <= k < outcomes.len(),
        !(outcomes[k] is Success),
        forall|j: int| 0 <= j < k ==> outcomes[j] is Success,
    ensures
        first_failure(outcomes) == Some(k),
    decreases outcomes.len(),
{
    if k > 0 {
        assert forall|j: int| 0 <= j < k - 1 implies outcomes.drop_first()[j] is Success by {
            assert(outcomes[j + 1] is Success);
        }
        lemma_first_failure_at(outcomes.drop_first(), k - 1);
    }
}

/// When every outcome succeeds, there is no first failure.
proof fn lemma_first_failure_none(outcomes: Seq<DeviceOutcome>)
    requires
        forall|j: int| 0 <= j < outcomes.len() ==> outcomes[j] is Success,
    ensures
        first_failure(outcomes) is None,
    decreases outcomes.len(),
{
    if outcomes.len() > 0 {
        assert forall|j: int| 0 <= j < outcomes.drop_first().len() implies outcomes.drop_first()[j]
            is Success by {
            assert(outcomes[j + 1] is Success);
        }
        lemma_first_failure_none(outcomes.drop_first());
    }
}

/// Walks one job's commands strictly in order against the device. The driver
/// repeatedly takes `next_command`, performs it on the hardware, and reports
/// the outcome back; after a reported fault no further command is issued, and
/// a step already executed is never undone.
#[derive(Debug)]
pub struct Dispatcher {
    job: Vec<Command>,
    next: usize,
    fault: Option<(usize, String)>,
}

impl Dispatcher {
    /// The job being dispatched.
    pub closed spec fn job_view(self) -> Seq<CommandModel> {
        job_model(self.job@)
    }

    /// How many leading commands have executed so far.
    pub closed spec fn executed(self) -> int {
        self.next as int
    }

    /// The fault recorded so far, if any: failing step index and cause.
    pub closed spec fn fault_view(self) -> Option<(int, Seq<char>)> {
        match self.fault {
            Some((step, cause)) => Some((step as int, cause@)),
            None => None,
        }
    }

    /// The dispatcher never runs past the job, and a recorded fault points at
    /// the last step that executed.
    pub closed spec fn wf(self) -> bool {
        &&& self.executed() <= self.job_view().len()
        &&& match self.fault {
            Some((step, _)) => self.next == step + 1 && self.next <= self.job_view().len(),
            None => true,
        }
    }

    /// Takes over a compiled job; nothing has executed yet.
    pub fn new(job: Vec<Command>) -> (d: Dispatcher)
        ensures
            d.wf(),
            d.job_view() == job_model(job@),
            d.executed() == 0,
            d.fault_view() is None,
    {
        Dispatcher { job, next: 0, fault: None }
    }

    /// The next command to perform on the device: `None` once the job is done
    /// or a fault was reported, so a fault aborts all remaining steps.
    pub fn next_command(&self) -> (c: Option<&Command>)
        requires
            self.wf(),
        ensures
            match c {
                Some(cmd) => self.fault_view() is None && self.executed()
                    < self.job_view().len() && command_model(*cmd) == self.job_view()[
                    self.executed()
                ],
                None => self.fault_view() is Some || self.executed() == self.job_view().len(),
            },
    {
        if self.fault.is_some() {
            None
        } else if self.next < self.job.len() {
            Some(&self.job[self.next])
        } else {
            None
        }
    }

    /// The device performed the current command successfully.
    pub fn report_success(&mut self)
        requires
            old(self).wf(),
            old(self).fault_view() is None,
            old(self).executed() < old(self).job_view().len(),
        ensures
            final(self).wf(),
            final(self).job_view() == old(self).job_view(),
            final(self).executed() == old(self).executed() + 1,
            final(self).fault_view() is None,
    {
        let n = self.job.len();
        assert(self.next < n);
        self.next += 1;
    }

    /// The device failed on the current command: record the failing step and
    /// its cause, counting the faulted step as executed (a feed or cut that
    /// already happened cannot be undone).
    pub fn report_failure(&mut self, cause: String)
        requires
            old(self).wf(),
            old(self).fault_view() is None,
            old(self).executed() < old(self).job_view().len(),
        ensures
            final(self).wf(),
            final(self).job_view() == old(self).job_view(),
            final(self).executed() == old(self).executed() + 1,
            final(self).fault_view() == Some((old(self).executed(), cause@)),
    {
        let n = self.job.len();
        assert(self.next < n);
        self.fault = Some((self.next, cause));
        self.next += 1;
    }

    /// The terminal state, once the walk has ended: `Done` after a clean run,
    /// otherwise the failing step and its cause. `None` while commands remain.
    pub fn result(&self) -> (r: Option<DispatchResult>)
        requires
            self.wf(),
        ensures
            match r {
                Some(DispatchResult::Done) => self.fault_view() is None && self.executed()
                    == self.job_view().len(),
                Some(DispatchResult::Faulted { step, cause }) => self.fault_view() == Some(
                    (step as int, cause@),
                ),
                None => self.fault_view() is None && self.executed() < self.job_view().len(),
            },
    {
        match &self.fault {
            Some((step, cause)) => Some(
                DispatchResult::Faulted { step: *step, cause: cause.clone() },
            ),
            None => {
                if self.next == self.job.len() {
                    Some(DispatchResult::Done)
                } else {
                    None
                }
            },
        }
    }
}

/// Executes a whole job against recorded device behaviour, one outcome per
/// command. The run stops at the first failing step and reports that step
/// with its cause; the returned count says how many leading steps executed,
/// so a fault at step `k` leaves exactly steps `0..=k` executed.
pub fn dispatch(job: Vec<Command>, outcomes: &Vec<DeviceOutcome>) -> (r: (DispatchResult, usize))
    requires
        outcomes@.len() == job@.len(),
    ensures
        match first_failure(outcomes@) {
            None => r.0 is Done && r.1 == job@.len(),
            Some(k) => r.0 matches DispatchResult::Faulted { step, cause } && step == k && cause@
                == outcomes@[k]->Failure_0@ && r.1 == k + 1,
        },
{
    let mut d = Dispatcher::new(job);
    let n = outcomes.len();
    let mut i: usize = 0;
    while i < n
        invariant
            d.wf(),
            n == outcomes@.len(),
            d.job_view().len() == n,
            i <= n,
            d.executed() == i,
            d.fault_view() is None,
            forall|j: int| 0 <= j < i ==> outcomes@[j] is Success,
        decreases n - i,
    {
        match &outcomes[i] {
            DeviceOutcome::Success => {
                d.report_success();
                i += 1;
            },
            DeviceOutcome::Failure(cause) => {
                d.report_failure(cause.clone());
                proof {
                    lemma_first_failure_at(outcomes@, i as int);
                }
                let executed = i + 1;
                match d.result() {
                    Some(res) => {
                        return (res, executed);
                    },
                    None => unreached(),
                }
            },
        }
    }
    proof {
        lemma_first_failure_none(outcomes@);
    }
    match d.result() {
        Some(res) => (res, n),
        None => unreached(),
    }
}

} // verus!
