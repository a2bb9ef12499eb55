//! The job: its merged configuration, and the run of its command as a state
//! machine that tells the caller what to do next.

use vstd::prelude::*;

use crate::config::{block_for, env_entries, Config, ConfigOption};
use crate::env::{expand, expansion, Env};
use crate::options::{assignments_of, split_assignment, Options};
use crate::pid::{marker_name, Pid};
use crate::report::{
    exit_code, exit_message, start_error_message, wait_error_message, Report, Termination, EXIT_NOT_STARTED,
    EXIT_WAIT_FAILED,
};
use crate::text::{concat, concat3, in_dir, path_in, views};

verus! {

/// The views of name and value pairs.
pub open spec fn pair_views(v: Seq<(String, String)>) -> Seq<(Seq<char>, Seq<char>)> {
    v.map_values(|p: (String, String)| (p.0@, p.1@))
}

/// The report hooks of a block, if there is one.
pub open spec fn block_reports(b: Option<ConfigOption>) -> Seq<Seq<char>> {
    match b {
        Some(o) => views(o.reports@),
        None => Seq::empty(),
    }
}

/// The notify hooks of a block, if there is one.
pub open spec fn block_notifies(b: Option<ConfigOption>) -> Seq<Seq<char>> {
    match b {
        Some(o) => views(o.notifies@),
        None => Seq::empty(),
    }
}

/// The environment assignments of a block, if there is one.
pub open spec fn block_env(b: Option<ConfigOption>) -> Seq<(Seq<char>, Seq<char>)> {
    match b {
        Some(o) => env_entries(o.env),
        None => Seq::empty(),
    }
}

/// The working directory of a block, if it names one.
pub open spec fn block_cwd(b: Option<ConfigOption>) -> Option<String> {
    match b {
        Some(o) => o.cwd,
        None => None,
    }
}

/// Report hooks: the global ones, then those of the job, then those of the
/// command line.
pub open spec fn merged_reports(conf: &Config, opts: &Options, identifer: Seq<char>) -> Seq<Seq<char>> {
    block_reports(conf.option) + block_reports(block_for(conf.options@, identifer)) + views(opts.reports@)
}

/// Notify hooks: the global ones, then those of the job, then those of the
/// command line.
pub open spec fn merged_notifies(conf: &Config, opts: &Options, identifer: Seq<char>) -> Seq<Seq<char>> {
    block_notifies(conf.option) + block_notifies(block_for(conf.options@, identifer)) + views(
        opts.notifies@,
    )
}

/// The working directory named last: by the command line, else by the job's
/// block, else by the global block.
pub open spec fn merged_cwd(conf: &Config, opts: &Options, identifer: Seq<char>) -> Option<String> {
    if opts.cwd is Some {
        opts.cwd
    } else if block_cwd(block_for(conf.options@, identifer)) is Some {
        block_cwd(block_for(conf.options@, identifer))
    } else {
        block_cwd(conf.option)
    }
}

/// Environment assignments in the order they are made: the global block, the
/// job's block, then the command line.
pub open spec fn merged_env(conf: &Config, opts: &Options, identifer: Seq<char>) -> Seq<
    (Seq<char>, Seq<char>),
> {
    block_env(conf.option) + block_env(block_for(conf.options@, identifer)) + assignments_of(
        views(opts.env@),
    )
}

/// The environment after making the assignments one by one, each value
/// expanded against what was set before it; `None` when an expansion does not
/// settle.
pub open spec fn apply_assignments(env: Seq<(Seq<char>, Seq<char>)>, a: Seq<(Seq<char>, Seq<char>)>) -> Option<
    Seq<(Seq<char>, Seq<char>)>,
>
    decreases a.len(),
{
    if a.len() == 0 {
        Some(env)
    } else {
        match apply_assignments(env, a.drop_last()) {
            None => None,
            Some(e) => match expansion(a.last().1, e) {
                None => None,
                Some(v) => Some(e.push((a.last().0, v))),
            },
        }
    }
}

proof fn lemma_apply_unsettled(env: Seq<(Seq<char>, Seq<char>)>, a: Seq<(Seq<char>, Seq<char>)>, k: int)
    requires
        0 <= k <= a.len(),
        apply_assignments(env, a.take(k)) is None,
    ensures
        apply_assignments(env, a) is None,
    decreases a.len() - k,
{
    if k < a.len() {
        assert(a.take(k + 1).drop_last() =~= a.take(k));
        lemma_apply_unsettled(env, a, k + 1);
    } else {
        assert(a.take(k) =~= a);
    }
}

/// Why the job could not be set up.
#[derive(Debug)]
pub enum StartupError {
    /// The command line names no job.
    MissingIdentifier,
    /// Expanding this value does not settle.
    Unsettled(String),
}

/// A job with its configuration merged: global block, then the job's own
/// block, then the command line.
pub struct EzCron {
    pub log_dir: String,
    pub pid_dir: String,
    pub identifer: String,
    /// Report hooks, run in this order once the command has ended.
    pub reports: Vec<String>,
    /// Notify hooks, run in this order once the command has started.
    pub notifies: Vec<String>,
    /// The working directory of the command, expanded.
    pub cwd: Option<String>,
    /// Runs of the job may overlap.
    pub multipled: bool,
    /// The environment assignments made for the job, values expanded, in order.
    pub env: Vec<(String, String)>,
}

/// Appends copies of `src` to `dst`.
fn append_strings(dst: &mut Vec<String>, src: &Vec<String>)
    ensures
        views(final(dst)@) == views(old(dst)@) + views(src@),
{
    let mut i: usize = 0;
    while i < src.len()
        invariant
            i <= src@.len(),
            views(dst@) == views(old(dst)@) + views(src@.take(i as int)),
        decreases src@.len() - i,
    {
        let ghost prev = dst@;
        let item = src[i].clone();
        assert(item@ == src@[i as int]@);
        dst.push(item);
        assert(src@.take(i + 1) =~= src@.take(i as int).push(src@[i as int]));
        assert(dst@ =~= prev.push(item));
        assert(views(dst@) =~= views(prev).push(item@));
        assert(views(src@.take(i + 1)) =~= views(src@.take(i as int)).push(item@));
        i = i + 1;
        assert(views(dst@) =~= views(old(dst)@) + views(src@.take(i as int)));
    }
    assert(src@.take(src@.len() as int) =~= src@);
}

/// Appends `src` to `dst`.
fn append_pairs(dst: &mut Vec<(String, String)>, src: Vec<(String, String)>)
    ensures
        pair_views(final(dst)@) == pair_views(old(dst)@) + pair_views(src@),
{
    let mut src = src;
    let ghost added = src@;
    dst.append(&mut src);
    assert(pair_views(final(dst)@) =~= pair_views(old(dst)@) + pair_views(added));
}

/// A copy of an optional string.
fn copy_option(o: &Option<String>) -> (r: Option<String>)
    ensures
        r == *o,
{
    match o {
        Some(s) => Some(s.clone()),
        None => None,
    }
}

impl EzCron {
    /// `self` is the job `opts` names, merged from `conf` and `opts`, where
    /// the environment went from `env0` to `env1` by its assignments.
    pub open spec fn resolves(
        &self,
        conf: &Config,
        opts: &Options,
        env0: Seq<(Seq<char>, Seq<char>)>,
        env1: Seq<(Seq<char>, Seq<char>)>,
    ) -> bool {
        &&& opts.identifer matches Some(id) && self.identifer@ == id@
        &&& self.log_dir@ == conf.ezcron.log_dir@
        &&& self.pid_dir@ == conf.ezcron.pid_dir@
        &&& views(self.reports@) == merged_reports(conf, opts, self.identifer@)
        &&& views(self.notifies@) == merged_notifies(conf, opts, self.identifer@)
        &&& apply_assignments(env0, merged_env(conf, opts, self.identifer@)) == Some(env1)
        &&& env1 == env0 + pair_views(self.env@)
        &&& self.multipled == opts.multipled
        &&& match merged_cwd(conf, opts, self.identifer@) {
            None => self.cwd is None,
            Some(w) => self.cwd matches Some(v) && expansion(w@, env1) == Some(v@),
        }
    }

    /// Merges the configuration of the job that `opts` names, making its
    /// environment assignments in `env`.
    pub fn new(conf: &Config, opts: &Options, env: &mut Env) -> (r: Result<EzCron, StartupError>)
        ensures
            match r {
                Ok(c) => c.resolves(conf, opts, old(env)@, final(env)@),
                Err(StartupError::MissingIdentifier) => opts.identifer is None && final(env)@ == old(
                    env,
                )@,
                Err(StartupError::Unsettled(_)) => opts.identifer matches Some(id) && match apply_assignments(
                    old(env)@,
                    merged_env(conf, opts, id@),
                ) {
                    None => true,
                    Some(e) => merged_cwd(conf, opts, id@) matches Some(w) && expansion(w@, e) is None,
                },
            },
            old(env)@.len() <= final(env)@.len(),
            final(env)@.take(old(env)@.len() as int) == old(env)@,
    {
        let identifer = match &opts.identifer {
            Some(id) => id.clone(),
            None => {
                return Err(StartupError::MissingIdentifier);
            },
        };
        let job = conf.find_option(identifer.as_str());
        let ghost job_block = block_for(conf.options@, identifer@);

        let mut reports: Vec<String> = Vec::new();
        let mut notifies: Vec<String> = Vec::new();
        let mut cwd: Option<String> = None;
        let mut assignments: Vec<(String, String)> = Vec::new();
        match &conf.option {
            Some(o) => {
                append_strings(&mut reports, &o.reports);
                append_strings(&mut notifies, &o.notifies);
                cwd = copy_option(&o.cwd);
                append_pairs(&mut assignments, o.env_assignments());
            },
            None => {},
        }
        assert(views(reports@) =~= block_reports(conf.option));
        assert(views(notifies@) =~= block_notifies(conf.option));
        assert(pair_views(assignments@) =~= block_env(conf.option));
        match job {
            Some(i) => {
                let o = &conf.options[i].1;
                append_strings(&mut reports, &o.reports);
                append_strings(&mut notifies, &o.notifies);
                if o.cwd.is_some() {
                    cwd = copy_option(&o.cwd);
                }
                append_pairs(&mut assignments, o.env_assignments());
            },
            None => {
                assert(views(reports@) =~= block_reports(conf.option) + block_reports(job_block));
                assert(views(notifies@) =~= block_notifies(conf.option) + block_notifies(job_block));
                assert(pair_views(assignments@) =~= block_env(conf.option) + block_env(job_block));
            },
        }
        append_strings(&mut reports, &opts.reports);
        append_strings(&mut notifies, &opts.notifies);
        if opts.cwd.is_some() {
            cwd = copy_option(&opts.cwd);
        }
        assert(cwd == merged_cwd(conf, opts, identifer@));

        // The command line's assignments, in order.
        let mut k: usize = 0;
        let ghost before = pair_views(assignments@);
        while k < opts.env.len()
            invariant
                k <= opts.env@.len(),
                pair_views(assignments@) == before + assignments_of(views(opts.env@.take(k as int))),
            decreases opts.env@.len() - k,
        {
            let ghost prefix = views(opts.env@.take(k as int));
            let ghost longer = views(opts.env@.take(k as int + 1));
            assert(longer.drop_last() =~= prefix);
            assert(longer.last() == opts.env@[k as int]@);
            let ghost prev = assignments@;
            match split_assignment(opts.env[k].as_str()) {
                Some(a) => {
                    assignments.push(a);
                    assert(assignments@ =~= prev.push(a));
                    assert(pair_views(assignments@) =~= pair_views(prev).push((a.0@, a.1@)));
                    assert(pair_views(assignments@) =~= before + assignments_of(longer));
                },
                None => {
                    assert(assignments_of(longer) == assignments_of(prefix));
                },
            }
            k = k + 1;
        }
        assert(opts.env@.take(opts.env@.len() as int) =~= opts.env@);
        assert(pair_views(assignments@) =~= merged_env(conf, opts, identifer@));

        // Each assignment is expanded against the ones made before it.
        let ghost env0 = env@;
        let ghost all = pair_views(assignments@);
        let mut made: Vec<(String, String)> = Vec::new();
        let mut j: usize = 0;
        assert(all.take(0) =~= Seq::<(Seq<char>, Seq<char>)>::empty());
        assert(env0 + pair_views(made@) =~= env0);
        while j < assignments.len()
            invariant
                j <= assignments@.len(),
                all == pair_views(assignments@),
                apply_assignments(env0, all.take(j as int)) == Some(env@),
                env@ == env0 + pair_views(made@),
                env0 == old(env)@,
                opts.identifer matches Some(id) && id@ == identifer@,
                all == merged_env(conf, opts, identifer@),
                cwd == merged_cwd(conf, opts, identifer@),
            decreases assignments@.len() - j,
        {
            assert(all.take(j as int + 1).drop_last() =~= all.take(j as int));
            let (name, value) = (&assignments[j].0, &assignments[j].1);
            assert(all.take(j as int + 1).last() == all[j as int]);
            assert(all[j as int] == (name@, value@));
            match expand(value.as_str(), env) {
                Some(v) => {
                    env.set(name.as_str(), v.as_str());
                    made.push((name.clone(), v));
                    assert(env@ =~= env0 + pair_views(made@));
                },
                None => {
                    proof {
                        assert(apply_assignments(env0, all.take(j + 1)) is None);
                        lemma_apply_unsettled(env0, all, j + 1);
                    }
                    assert(env@.take(env0.len() as int) =~= env0);
                    return Err(StartupError::Unsettled(value.clone()));
                },
            }
            j = j + 1;
        }
        assert(all.take(j as int) =~= all);
        assert(env@.take(env0.len() as int) =~= env0);

        let cwd = match cwd {
            Some(w) => match expand(w.as_str(), env) {
                Some(v) => Some(v),
                None => {
                    return Err(StartupError::Unsettled(w));
                },
            },
            None => None,
        };
        Ok(
            EzCron {
                log_dir: conf.ezcron.log_dir.clone(),
                pid_dir: conf.ezcron.pid_dir.clone(),
                identifer,
                reports,
                notifies,
                cwd,
                multipled: opts.multipled,
                env: made,
            },
        )
    }
}

/// What the caller observed since the last step.
pub enum Event {
    /// Whether the job's marker file was found on disk.
    Checked(bool),
    /// The run's log file is open, at this path.
    LogOpened(String),
    /// The command could not be started, for this reason.
    SpawnFailed(String),
    /// The command started as this process.
    Spawned(u32),
    /// The marker file holds the process id now.
    MarkerWritten,
    /// The hook that was asked for has ended, one way or another.
    HookEnded(HookOutcome),
    /// The command wrote this line, on its output or its error stream.
    Output(String),
    /// The command's output has ended.
    OutputEnded,
    /// Waiting for the command to end failed.
    WaitFailed,
    /// The command ended.
    Terminated(Termination),
}

/// How a hook went.
pub enum HookOutcome {
    /// It ran; these are the lines of its combined output.
    Ran(Vec<String>),
    /// It could not be started, for this reason.
    NotStarted(String),
}

/// What the caller is to do next.
#[derive(Clone, Copy, Debug, PartialEq, Eq, Structural)]
pub enum Action {
    /// Nothing: the job is running already. There is no report and no log.
    Skip,
    /// Open the run's log file.
    OpenLog,
    /// Start the command.
    Spawn,
    /// Write this process id into the marker file.
    WriteMarker(u32),
    /// Run the notify hook at this index, with the report on its input.
    RunNotify(usize),
    /// Read the next line of the command's output.
    ReadOutput,
    /// Wait for the command to end.
    Wait,
    /// Run the report hook at this index, with the report on its input.
    RunReport(usize),
    /// The run is over and its report is final.
    Finish,
    /// The event does not belong where the run stands; nothing changed.
    Ignore,
}

/// Where a run stands.
#[derive(Clone, Copy, Debug, PartialEq, Eq, Structural)]
pub enum Stage {
    /// Waiting to learn whether the marker file is there.
    Checking,
    /// Waiting for the log to open.
    Opening,
    /// Waiting for the command to start.
    Starting,
    /// Waiting for the marker file to be written.
    Marking,
    /// Waiting for the notify hook at this index.
    Notifying(usize),
    /// Reading the command's output.
    Capturing,
    /// Waiting for the command to end.
    Waiting,
    /// Waiting for the report hook at this index.
    Reporting(usize),
    /// The run is over.
    Done,
}

/// The answer to one event: lines for the log, and what to do next.
pub struct Step {
    pub log: Vec<String>,
    pub action: Action,
}

/// One run of a job's command.
pub struct Execution {
    pub stage: Stage,
    /// The command line.
    pub args: Vec<String>,
    /// The report; `None` until the log is open.
    pub report: Option<Report>,
    /// The job's lock marker.
    pub marker: Pid,
}

/// The line that frames the parts of a log.
pub open spec fn separator() -> Seq<char> {
    "--------"@
}

/// The log line before a notify hook's output.
pub open spec fn notify_banner(command: Seq<char>) -> Seq<char> {
    "starting notify! '"@ + command + "'"@
}

/// The log line before a report hook's output.
pub open spec fn report_banner(command: Seq<char>) -> Seq<char> {
    "starting report! '"@ + command + "'"@
}

/// The log line of a hook that could not be started.
pub open spec fn hook_error_line(reason: Seq<char>) -> Seq<char> {
    "process starting error! '"@ + reason + "'"@
}

/// The log lines of a hook's outcome.
pub open spec fn outcome_lines(o: HookOutcome) -> Seq<Seq<char>> {
    match o {
        HookOutcome::Ran(lines) => views(lines@),
        HookOutcome::NotStarted(reason) => seq![hook_error_line(reason@)],
    }
}

/// Where the notify phase begins: at the first hook, or, with none, at the
/// command's output.
pub open spec fn begin_notifies(notifies: nat) -> (Stage, Action) {
    if notifies > 0 {
        (Stage::Notifying(0), Action::RunNotify(0))
    } else {
        (Stage::Capturing, Action::ReadOutput)
    }
}

/// Where the report phase begins: at the first hook, or, with none, at the end.
pub open spec fn begin_reports(reports: nat) -> (Stage, Action) {
    if reports > 0 {
        (Stage::Reporting(0), Action::RunReport(0))
    } else {
        (Stage::Done, Action::Finish)
    }
}

/// Where a run goes on an event, and what the caller does next, for a job
/// with the given numbers of hooks.
pub open spec fn transition(
    notifies: nat,
    reports: nat,
    multipled: bool,
    has_report: bool,
    stage: Stage,
    event: Event,
) -> (Stage, Action) {
    match stage {
        Stage::Checking => match event {
            Event::Checked(found) => if !multipled && found {
                (Stage::Done, Action::Skip)
            } else {
                (Stage::Opening, Action::OpenLog)
            },
            _ => (stage, Action::Ignore),
        },
        Stage::Opening => match event {
            Event::LogOpened(_) => (Stage::Starting, Action::Spawn),
            _ => (stage, Action::Ignore),
        },
        Stage::Starting => match event {
            Event::SpawnFailed(_) => if has_report {
                begin_reports(reports)
            } else {
                (stage, Action::Ignore)
            },
            Event::Spawned(pid) => if !has_report {
                (stage, Action::Ignore)
            } else if !multipled {
                (Stage::Marking, Action::WriteMarker(pid))
            } else {
                begin_notifies(notifies)
            },
            _ => (stage, Action::Ignore),
        },
        Stage::Marking => match event {
            Event::MarkerWritten => begin_notifies(notifies),
            _ => (stage, Action::Ignore),
        },
        Stage::Notifying(i) => match event {
            Event::HookEnded(_) => if i + 1 < notifies {
                (Stage::Notifying((i + 1) as usize), Action::RunNotify((i + 1) as usize))
            } else {
                (Stage::Capturing, Action::ReadOutput)
            },
            _ => (stage, Action::Ignore),
        },
        Stage::Capturing => match event {
            Event::Output(_) => (Stage::Capturing, Action::ReadOutput),
            Event::OutputEnded => (Stage::Waiting, Action::Wait),
            _ => (stage, Action::Ignore),
        },
        Stage::Waiting => match event {
            Event::WaitFailed => if has_report {
                begin_reports(reports)
            } else {
                (stage, Action::Ignore)
            },
            Event::Terminated(_) => if has_report {
                begin_reports(reports)
            } else {
                (stage, Action::Ignore)
            },
            _ => (stage, Action::Ignore),
        },
        Stage::Reporting(i) => match event {
            Event::HookEnded(_) => if i + 1 < reports {
                (Stage::Reporting((i + 1) as usize), Action::RunReport((i + 1) as usize))
            } else {
                (Stage::Done, Action::Finish)
            },
            _ => (stage, Action::Ignore),
        },
        Stage::Done => (stage, Action::Ignore),
    }
}

/// The log lines as the notify phase begins: the first hook's banner, or,
/// with no hook, the start message.
pub open spec fn begin_notifies_log(notifies: Seq<Seq<char>>, result: Seq<char>) -> Seq<Seq<char>> {
    if notifies.len() > 0 {
        seq![notify_banner(notifies[0]), separator()]
    } else {
        seq![result, separator()]
    }
}

/// The log lines as the report phase begins: the first hook's banner, if any.
pub open spec fn begin_reports_log(reports: Seq<Seq<char>>) -> Seq<Seq<char>> {
    if reports.len() > 0 {
        seq![separator(), report_banner(reports[0]), separator()]
    } else {
        Seq::empty()
    }
}

/// The log lines written on an event, where `result` is the report's result
/// message after it.
pub open spec fn step_log(
    notifies: Seq<Seq<char>>,
    reports: Seq<Seq<char>>,
    multipled: bool,
    stage: Stage,
    event: Event,
    result: Seq<char>,
) -> Seq<Seq<char>> {
    match stage {
        Stage::Starting => match event {
            Event::SpawnFailed(_) => seq![separator(), result] + begin_reports_log(reports),
            Event::Spawned(_) => if !multipled {
                Seq::empty()
            } else {
                begin_notifies_log(notifies, result)
            },
            _ => Seq::empty(),
        },
        Stage::Marking => match event {
            Event::MarkerWritten => begin_notifies_log(notifies, result),
            _ => Seq::empty(),
        },
        Stage::Notifying(i) => match event {
            Event::HookEnded(o) => outcome_lines(o) + if i + 1 < notifies.len() {
                seq![separator(), notify_banner(notifies[i + 1]), separator()]
            } else {
                seq![separator(), result, separator()]
            },
            _ => Seq::empty(),
        },
        Stage::Capturing => match event {
            Event::Output(line) => seq![line@],
            _ => Seq::empty(),
        },
        Stage::Waiting => match event {
            Event::WaitFailed => seq![separator(), result] + begin_reports_log(reports),
            Event::Terminated(_) => seq![separator(), result] + begin_reports_log(reports),
            _ => Seq::empty(),
        },
        Stage::Reporting(i) => match event {
            Event::HookEnded(o) => outcome_lines(o) + if i + 1 < reports.len() {
                seq![separator(), report_banner(reports[i + 1]), separator()]
            } else {
                Seq::empty()
            },
            _ => Seq::empty(),
        },
        _ => Seq::empty(),
    }
}

/// `after` is `before` with only its pid and result changed, as when the
/// command started as `pid`.
pub open spec fn starts(after: Report, before: Report, pid: u32) -> bool {
    &&& after.pid == pid
    &&& after.result@ == crate::report::started_message(before.command@)
    &&& after.identifer == before.identifer
    &&& after.uuid == before.uuid
    &&& after.hostname == before.hostname
    &&& after.command == before.command
    &&& after.args == before.args
    &&& after.exitcode == before.exitcode
    &&& after.status == before.status
    &&& after.log == before.log
    &&& after.start_at == before.start_at
    &&& after.end_at == before.end_at
}

/// How the report changes on an event, in a run of `args` for job
/// `identifer`.
pub open spec fn report_after(
    before: Option<Report>,
    after: Option<Report>,
    stage: Stage,
    event: Event,
    identifer: Seq<char>,
    args: Seq<String>,
) -> bool {
    match (stage, event, before) {
        (Stage::Opening, Event::LogOpened(path), _) => after matches Some(n) && n.is_fresh(
            identifer,
            args,
            path@,
        ),
        (Stage::Starting, Event::SpawnFailed(reason), Some(o)) => after matches Some(n) && n.finalizes(
            &o,
            EXIT_NOT_STARTED,
            start_error_message(reason@),
        ),
        (Stage::Starting, Event::Spawned(pid), Some(o)) => after matches Some(n) && starts(n, o, pid),
        (Stage::Waiting, Event::WaitFailed, Some(o)) => after matches Some(n) && n.finalizes(
            &o,
            EXIT_WAIT_FAILED,
            wait_error_message(),
        ),
        (Stage::Waiting, Event::Terminated(t), Some(o)) => after matches Some(n) && n.finalizes(
            &o,
            exit_code(t),
            exit_message(t),
        ),
        _ => after == before,
    }
}

/// The separator line.
fn separator_line() -> (r: String)
    ensures
        r@ == separator(),
{
    String::from_str("--------")
}

/// Appends `line` to `log`.
fn push_line(log: &mut Vec<String>, line: String)
    ensures
        views(final(log)@) == views(old(log)@).push(line@),
{
    log.push(line);
    assert(views(final(log)@) =~= views(old(log)@).push(line@));
}

/// Appends the lines of a hook's outcome to `log`.
fn push_outcome(log: &mut Vec<String>, o: HookOutcome)
    ensures
        views(final(log)@) == views(old(log)@) + outcome_lines(o),
{
    match o {
        HookOutcome::Ran(lines) => {
            let ghost added = lines@;
            let mut lines = lines;
            log.append(&mut lines);
            assert(views(final(log)@) =~= views(old(log)@) + views(added));
        },
        HookOutcome::NotStarted(reason) => {
            push_line(log, concat3("process starting error! '", reason.as_str(), "'"));
            assert(views(final(log)@) =~= views(old(log)@) + outcome_lines(HookOutcome::NotStarted(reason)));
        },
    }
}

/// The separator and, with notify hooks, the first one's banner.
fn begin_notifies_step(job: &EzCron, log: &mut Vec<String>, result: &String) -> (r: (Stage, Action))
    ensures
        r == begin_notifies(job.notifies@.len()),
        views(final(log)@) == views(old(log)@) + begin_notifies_log(views(job.notifies@), result@),
{
    let ghost start = views(log@);
    if job.notifies.len() > 0 {
        push_line(log, concat3("starting notify! '", job.notifies[0].as_str(), "'"));
        push_line(log, separator_line());
        assert(views(log@) =~= start + begin_notifies_log(views(job.notifies@), result@));
        (Stage::Notifying(0), Action::RunNotify(0))
    } else {
        push_line(log, result.clone());
        push_line(log, separator_line());
        assert(views(log@) =~= start + begin_notifies_log(views(job.notifies@), result@));
        (Stage::Capturing, Action::ReadOutput)
    }
}

/// With report hooks, the first one's banner between separators.
fn begin_reports_step(job: &EzCron, log: &mut Vec<String>) -> (r: (Stage, Action))
    ensures
        r == begin_reports(job.reports@.len()),
        views(final(log)@) == views(old(log)@) + begin_reports_log(views(job.reports@)),
{
    let ghost start = views(log@);
    if job.reports.len() > 0 {
        push_line(log, separator_line());
        push_line(log, concat3("starting report! '", job.reports[0].as_str(), "'"));
        push_line(log, separator_line());
        assert(views(log@) =~= start + begin_reports_log(views(job.reports@)));
        (Stage::Reporting(0), Action::RunReport(0))
    } else {
        assert(views(log@) =~= start + begin_reports_log(views(job.reports@)));
        (Stage::Done, Action::Finish)
    }
}

/// The report's result message; empty without a report.
pub open spec fn result_text(report: Option<Report>) -> Seq<char> {
    match report {
        Some(rep) => rep.result@,
        None => Seq::empty(),
    }
}

/// The report's result message; empty without a report.
fn result_of(report: &Option<Report>) -> (r: String)
    ensures
        r@ == result_text(*report),
{
    match report {
        Some(rep) => rep.result.clone(),
        None => String::new(),
    }
}

/// The name of a run's log file: its start stamp, then the job identifier.
pub open spec fn log_name(stamp: Seq<char>, identifer: Seq<char>) -> Seq<char> {
    stamp + "-"@ + identifer + ".log"@
}

impl EzCron {
    /// The path of the log of a run that starts at `stamp`.
    pub fn log_path(&self, stamp: &str) -> (r: String)
        ensures
            r@ == in_dir(self.log_dir@, log_name(stamp@, self.identifer@)),
    {
        let name = concat3(stamp, "-", self.identifer.as_str());
        let name = concat(name.as_str(), ".log");
        path_in(self.log_dir.as_str(), name.as_str())
    }

    /// Begins a run of the command line `args`; it first needs to know
    /// whether the job's marker file is on disk.
    pub fn run(&self, args: &Vec<String>) -> (r: Execution)
        ensures
            r.stage == Stage::Checking,
            r.report is None,
            r.args@ == args@,
            r.marker.multipled == self.multipled,
            r.marker.path@ == in_dir(self.pid_dir@, marker_name(self.identifer@)),
            r.marker.pid == 0,
    {
        let copy = args.clone();
        assert(copy@ =~= args@);
        Execution {
            stage: Stage::Checking,
            args: copy,
            report: None,
            marker: Pid::new(self.identifer.as_str(), self.multipled, self.pid_dir.as_str()),
        }
    }
}

impl Execution {
    /// Takes in what the caller observed, and answers with the lines to log
    /// and what to do next.
    pub fn step(&mut self, job: &EzCron, event: Event) -> (r: Step)
        ensures
            (final(self).stage, r.action) == transition(
                job.notifies@.len(),
                job.reports@.len(),
                old(self).marker.multipled,
                old(self).report is Some,
                old(self).stage,
                event,
            ),
            report_after(
                old(self).report,
                final(self).report,
                old(self).stage,
                event,
                job.identifer@,
                old(self).args@,
            ),
            final(self).args == old(self).args,
            final(self).marker.multipled == old(self).marker.multipled,
            final(self).marker.path == old(self).marker.path,
            final(self).marker.pid == (match (old(self).stage, event, old(self).report) {
                (Stage::Starting, Event::Spawned(pid), Some(_)) => pid,
                _ => old(self).marker.pid,
            }),
            r.action == Action::Ignore ==> r.log@.len() == 0,
            r.action != Action::Ignore ==> views(r.log@) == step_log(
                views(job.notifies@),
                views(job.reports@),
                old(self).marker.multipled,
                old(self).stage,
                event,
                result_text(final(self).report),
            ),
    {
        let mut log: Vec<String> = Vec::new();
        assert(views(log@) =~= Seq::<Seq<char>>::empty());
        match self.stage {
            Stage::Checking => match event {
                Event::Checked(found) => {
                    if self.marker.is_exists(found) {
                        self.stage = Stage::Done;
                        Step { log, action: Action::Skip }
                    } else {
                        self.stage = Stage::Opening;
                        Step { log, action: Action::OpenLog }
                    }
                },
                _ => Step { log, action: Action::Ignore },
            },
            Stage::Opening => match event {
                Event::LogOpened(path) => {
                    self.report = Some(Report::create(job.identifer.as_str(), &self.args, path.as_str()));
                    self.stage = Stage::Starting;
                    Step { log, action: Action::Spawn }
                },
                _ => Step { log, action: Action::Ignore },
            },
            Stage::Starting => match event {
                Event::SpawnFailed(reason) => {
                    match &mut self.report {
                        Some(rep) => {
                            rep.start_failed(reason.as_str());
                        },
                        None => {
                            return Step { log, action: Action::Ignore };
                        },
                    }
                    let result = result_of(&self.report);
                    push_line(&mut log, separator_line());
                    push_line(&mut log, result);
                    let (stage, action) = begin_reports_step(job, &mut log);
                    self.stage = stage;
                    Step { log, action }
                },
                Event::Spawned(pid) => {
                    match &mut self.report {
                        Some(rep) => {
                            rep.started(pid);
                        },
                        None => {
                            return Step { log, action: Action::Ignore };
                        },
                    }
                    if self.marker.touch(pid) {
                        self.stage = Stage::Marking;
                        Step { log, action: Action::WriteMarker(pid) }
                    } else {
                        let result = result_of(&self.report);
                        let (stage, action) = begin_notifies_step(job, &mut log, &result);
                        self.stage = stage;
                        Step { log, action }
                    }
                },
                _ => Step { log, action: Action::Ignore },
            },
            Stage::Marking => match event {
                Event::MarkerWritten => {
                    let result = result_of(&self.report);
                    let (stage, action) = begin_notifies_step(job, &mut log, &result);
                    self.stage = stage;
                    Step { log, action }
                },
                _ => Step { log, action: Action::Ignore },
            },
            Stage::Notifying(i) => match event {
                Event::HookEnded(o) => {
                    push_outcome(&mut log, o);
                    let n = job.notifies.len();
                    if n > 0 && i < n - 1 {
                        push_line(&mut log, separator_line());
                        push_line(&mut log, concat3("starting notify! '", job.notifies[i + 1].as_str(), "'"));
                        push_line(&mut log, separator_line());
                        self.stage = Stage::Notifying(i + 1);
                        Step { log, action: Action::RunNotify(i + 1) }
                    } else {
                        push_line(&mut log, separator_line());
                        push_line(&mut log, result_of(&self.report));
                        push_line(&mut log, separator_line());
                        self.stage = Stage::Capturing;
                        Step { log, action: Action::ReadOutput }
                    }
                },
                _ => Step { log, action: Action::Ignore },
            },
            Stage::Capturing => match event {
                Event::Output(line) => {
                    push_line(&mut log, line);
                    Step { log, action: Action::ReadOutput }
                },
                Event::OutputEnded => {
                    self.stage = Stage::Waiting;
                    Step { log, action: Action::Wait }
                },
                _ => Step { log, action: Action::Ignore },
            },
            Stage::Waiting => match event {
                Event::WaitFailed => {
                    match &mut self.report {
                        Some(rep) => {
                            rep.wait_failed();
                        },
                        None => {
                            return Step { log, action: Action::Ignore };
                        },
                    }
                    let result = result_of(&self.report);
                    push_line(&mut log, separator_line());
                    push_line(&mut log, result);
                    let (stage, action) = begin_reports_step(job, &mut log);
                    self.stage = stage;
                    Step { log, action }
                },
                Event::Terminated(t) => {
                    match &mut self.report {
                        Some(rep) => {
                            rep.terminated(t);
                        },
                        None => {
                            return Step { log, action: Action::Ignore };
                        },
                    }
                    let result = result_of(&self.report);
                    push_line(&mut log, separator_line());
                    push_line(&mut log, result);
                    let (stage, action) = begin_reports_step(job, &mut log);
                    self.stage = stage;
                    Step { log, action }
                },
                _ => Step { log, action: Action::Ignore },
            },
            Stage::Reporting(i) => match event {
                Event::HookEnded(o) => {
                    push_outcome(&mut log, o);
                    let n = job.reports.len();
                    if n > 0 && i < n - 1 {
                        push_line(&mut log, separator_line());
                        push_line(&mut log, concat3("starting report! '", job.reports[i + 1].as_str(), "'"));
                        push_line(&mut log, separator_line());
                        self.stage = Stage::Reporting(i + 1);
                        Step { log, action: Action::RunReport(i + 1) }
                    } else {
                        self.stage = Stage::Done;
                        Step { log, action: Action::Finish }
                    }
                },
                _ => Step { log, action: Action::Ignore },
            },
            Stage::Done => Step { log, action: Action::Ignore },
        }
    }
}

/// A job that forbids overlap and whose marker file is on disk is skipped:
/// the run ends at once, with no report and no log line, and nothing after
/// that moves it.
pub proof fn law_held_marker_skips(
    notifies: Seq<Seq<char>>,
    reports: Seq<Seq<char>>,
    before: Option<Report>,
    after: Option<Report>,
    identifer: Seq<char>,
    args: Seq<String>,
    result: Seq<char>,
    later: Event,
)
    requires
        report_after(before, after, Stage::Checking, Event::Checked(true), identifer, args),
    ensures
        transition(notifies.len(), reports.len(), false, before is Some, Stage::Checking, Event::Checked(true))
            == (Stage::Done, Action::Skip),
        after == before,
        step_log(notifies, reports, false, Stage::Checking, Event::Checked(true), result).len() == 0,
        transition(notifies.len(), reports.len(), false, after is Some, Stage::Done, later) == (
            Stage::Done,
            Action::Ignore,
        ),
{
}

/// Hooks run in the order of their list, one after the other, and how a hook
/// went does not change which hook runs next: the phase goes on to the next
/// one either way. Notify hooks all come before the command's output is read.
pub proof fn law_hooks_run_in_order(
    notifies: nat,
    reports: nat,
    multipled: bool,
    has_report: bool,
    i: usize,
    first: HookOutcome,
    second: HookOutcome,
)
    ensures
        notifies > 0 ==> begin_notifies(notifies) == (Stage::Notifying(0), Action::RunNotify(0)),
        reports > 0 ==> begin_reports(reports) == (Stage::Reporting(0), Action::RunReport(0)),
        transition(notifies, reports, multipled, has_report, Stage::Notifying(i), Event::HookEnded(first))
            == transition(notifies, reports, multipled, has_report, Stage::Notifying(i), Event::HookEnded(second)),
        transition(notifies, reports, multipled, has_report, Stage::Reporting(i), Event::HookEnded(first))
            == transition(notifies, reports, multipled, has_report, Stage::Reporting(i), Event::HookEnded(second)),
        i + 1 < notifies ==> transition(
            notifies,
            reports,
            multipled,
            has_report,
            Stage::Notifying(i),
            Event::HookEnded(first),
        ) == (Stage::Notifying((i + 1) as usize), Action::RunNotify((i + 1) as usize)),
        i + 1 >= notifies ==> transition(
            notifies,
            reports,
            multipled,
            has_report,
            Stage::Notifying(i),
            Event::HookEnded(first),
        ) == (Stage::Capturing, Action::ReadOutput),
        i + 1 < reports ==> transition(
            notifies,
            reports,
            multipled,
            has_report,
            Stage::Reporting(i),
            Event::HookEnded(first),
        ) == (Stage::Reporting((i + 1) as usize), Action::RunReport((i + 1) as usize)),
        i + 1 >= reports ==> transition(
            notifies,
            reports,
            multipled,
            has_report,
            Stage::Reporting(i),
            Event::HookEnded(first),
        ) == (Stage::Done, Action::Finish),
{
}

/// The actions that answer a series of hook outcomes, from `stage` on.
pub open spec fn hook_actions(
    notifies: nat,
    reports: nat,
    multipled: bool,
    has_report: bool,
    stage: Stage,
    outcomes: Seq<HookOutcome>,
) -> Seq<Action>
    decreases outcomes.len(),
{
    if outcomes.len() == 0 {
        Seq::empty()
    } else {
        let (next, action) = transition(
            notifies,
            reports,
            multipled,
            has_report,
            stage,
            Event::HookEnded(outcomes[0]),
        );
        seq![action] + hook_actions(notifies, reports, multipled, has_report, next, outcomes.drop_first())
    }
}

proof fn lemma_notify_actions(
    notifies: nat,
    reports: nat,
    multipled: bool,
    has_report: bool,
    i: usize,
    outcomes: Seq<HookOutcome>,
)
    requires
        notifies <= usize::MAX,
        i + outcomes.len() == notifies,
    ensures
        hook_actions(notifies, reports, multipled, has_report, Stage::Notifying(i), outcomes) == Seq::new(
            outcomes.len(),
            |j: int|
                if i + j + 1 < notifies {
                    Action::RunNotify((i + j + 1) as usize)
                } else {
                    Action::ReadOutput
                },
        ),
    decreases outcomes.len(),
{
    let expected = Seq::new(
        outcomes.len(),
        |j: int|
            if i + j + 1 < notifies {
                Action::RunNotify((i + j + 1) as usize)
            } else {
                Action::ReadOutput
            },
    );
    if outcomes.len() > 0 {
        let (next, action) = transition(
            notifies,
            reports,
            multipled,
            has_report,
            Stage::Notifying(i),
            Event::HookEnded(outcomes[0]),
        );
        let rest = hook_actions(notifies, reports, multipled, has_report, next, outcomes.drop_first());
        let all = hook_actions(notifies, reports, multipled, has_report, Stage::Notifying(i), outcomes);
        assert(all == seq![action] + rest);
        if i + 1 < notifies {
            lemma_notify_actions(notifies, reports, multipled, has_report, (i + 1) as usize, outcomes.drop_first());
            assert forall|j: int| 0 <= j < all.len() implies all[j] == expected[j] by {
                if j > 0 {
                    assert(all[j] == rest[j - 1]);
                }
            }
        } else {
            assert(outcomes.drop_first().len() == 0);
            assert(rest.len() == 0);
        }
        assert(all =~= expected);
    } else {
        assert(hook_actions(notifies, reports, multipled, has_report, Stage::Notifying(i), outcomes) =~= expected);
    }
}

proof fn lemma_report_actions(
    notifies: nat,
    reports: nat,
    multipled: bool,
    has_report: bool,
    i: usize,
    outcomes: Seq<HookOutcome>,
)
    requires
        reports <= usize::MAX,
        i + outcomes.len() == reports,
    ensures
        hook_actions(notifies, reports, multipled, has_report, Stage::Reporting(i), outcomes) == Seq::new(
            outcomes.len(),
            |j: int|
                if i + j + 1 < reports {
                    Action::RunReport((i + j + 1) as usize)
                } else {
                    Action::Finish
                },
        ),
    decreases outcomes.len(),
{
    let expected = Seq::new(
        outcomes.len(),
        |j: int|
            if i + j + 1 < reports {
                Action::RunReport((i + j + 1) as usize)
            } else {
                Action::Finish
            },
    );
    if outcomes.len() > 0 {
        let (next, action) = transition(
            notifies,
            reports,
            multipled,
            has_report,
            Stage::Reporting(i),
            Event::HookEnded(outcomes[0]),
        );
        let rest = hook_actions(notifies, reports, multipled, has_report, next, outcomes.drop_first());
        let all = hook_actions(notifies, reports, multipled, has_report, Stage::Reporting(i), outcomes);
        assert(all == seq![action] + rest);
        if i + 1 < reports {
            lemma_report_actions(notifies, reports, multipled, has_report, (i + 1) as usize, outcomes.drop_first());
            assert forall|j: int| 0 <= j < all.len() implies all[j] == expected[j] by {
                if j > 0 {
                    assert(all[j] == rest[j - 1]);
                }
            }
        } else {
            assert(outcomes.drop_first().len() == 0);
            assert(rest.len() == 0);
        }
        assert(all =~= expected);
    } else {
        assert(hook_actions(notifies, reports, multipled, has_report, Stage::Reporting(i), outcomes) =~= expected);
    }
}

/// Over a whole phase, whatever each hook's outcome (ran or could not start),
/// the run asks for every hook of the list exactly once, in list order, and
/// then goes on: to the command's output after the notify hooks, to the end
/// after the report hooks.
pub proof fn law_every_hook_runs_in_order(
    notifies: nat,
    reports: nat,
    multipled: bool,
    has_report: bool,
    notify_outcomes: Seq<HookOutcome>,
    report_outcomes: Seq<HookOutcome>,
)
    requires
        notifies <= usize::MAX,
        reports <= usize::MAX,
        notify_outcomes.len() == notifies,
        report_outcomes.len() == reports,
    ensures
        notifies > 0 ==> begin_notifies(notifies).1 == Action::RunNotify(0) && hook_actions(
            notifies,
            reports,
            multipled,
            has_report,
            begin_notifies(notifies).0,
            notify_outcomes,
        ) == Seq::new(
            notifies,
            |j: int|
                if j + 1 < notifies {
                    Action::RunNotify((j + 1) as usize)
                } else {
                    Action::ReadOutput
                },
        ),
        reports > 0 ==> begin_reports(reports).1 == Action::RunReport(0) && hook_actions(
            notifies,
            reports,
            multipled,
            has_report,
            begin_reports(reports).0,
            report_outcomes,
        ) == Seq::new(
            reports,
            |j: int|
                if j + 1 < reports {
                    Action::RunReport((j + 1) as usize)
                } else {
                    Action::Finish
                },
        ),
{
    if notifies > 0 {
        lemma_notify_actions(notifies, reports, multipled, has_report, 0, notify_outcomes);
        assert(Seq::new(
            notifies,
            |j: int|
                if 0 + j + 1 < notifies {
                    Action::RunNotify((0 + j + 1) as usize)
                } else {
                    Action::ReadOutput
                },
        ) =~= Seq::new(
            notifies,
            |j: int|
                if j + 1 < notifies {
                    Action::RunNotify((j + 1) as usize)
                } else {
                    Action::ReadOutput
                },
        ));
    }
    if reports > 0 {
        lemma_report_actions(notifies, reports, multipled, has_report, 0, report_outcomes);
        assert(Seq::new(
            reports,
            |j: int|
                if 0 + j + 1 < reports {
                    Action::RunReport((0 + j + 1) as usize)
                } else {
                    Action::Finish
                },
        ) =~= Seq::new(
            reports,
            |j: int|
                if j + 1 < reports {
                    Action::RunReport((j + 1) as usize)
                } else {
                    Action::Finish
                },
        ));
    }
}

/// Configuration merge: with a global block, a block for the job and hooks on
/// the command line, the job's hooks are the global ones, then the job's,
/// then the command line's, in that order.
pub proof fn law_hooks_merge_in_order(
    c: EzCron,
    conf: Config,
    opts: Options,
    env0: Seq<(Seq<char>, Seq<char>)>,
    env1: Seq<(Seq<char>, Seq<char>)>,
    global: ConfigOption,
    job: ConfigOption,
)
    requires
        c.resolves(&conf, &opts, env0, env1),
        conf.option == Some(global),
        block_for(conf.options@, c.identifer@) == Some(job),
    ensures
        views(c.reports@) == views(global.reports@) + views(job.reports@) + views(opts.reports@),
        views(c.notifies@) == views(global.notifies@) + views(job.notifies@) + views(opts.notifies@),
{
    assert(views(opts.reports@).take(0) =~= Seq::<Seq<char>>::empty());
    assert(views(global.notifies@) + views(job.notifies@) + Seq::<Seq<char>>::empty() =~= views(
        global.notifies@,
    ) + views(job.notifies@));
}

} // verus!
