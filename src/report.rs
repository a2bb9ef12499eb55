//! The report of one execution attempt: created when the run starts,
//! finalized once when it ends, then handed to the report hooks.

use vstd::prelude::*;

use crate::text::{concat3, decimal, decimal_of, join, joined, signed_decimal, signed_decimal_of, views};

verus! {

/// Whether the supervised command is still running.
#[derive(Clone, Copy, Debug, PartialEq, Eq, Structural)]
pub enum ReportStatus {
    Running,
    Finished,
}

/// How the supervised command ended, as the operating system tells it.
#[derive(Clone, Copy, Debug, PartialEq, Eq, Structural)]
pub enum Termination {
    /// It exited with this code.
    Exited(u32),
    /// A signal with this number ended it.
    Signaled(u8),
    /// Some other form of termination, with its raw code.
    Other(i32),
    /// It ended, but its status could not be had.
    Undetermined,
}

/// The exit code recorded for a termination: an exit code as it is, `128 + S`
/// for signal `S`, another form's raw code, and `128` (as for a failed wait)
/// when the status is unknown.
pub open spec fn exit_code(t: Termination) -> u32 {
    match t {
        Termination::Exited(code) => code,
        Termination::Signaled(sig) => (sig + 128) as u32,
        Termination::Other(code) => code as u32,
        Termination::Undetermined => 128,
    }
}

/// The result message recorded for a termination.
pub open spec fn exit_message(t: Termination) -> Seq<char> {
    match t {
        Termination::Exited(code) => "process terminated code("@ + decimal(code as nat) + ")"@,
        Termination::Signaled(sig) => "process received signal("@ + decimal(sig as nat) + ")"@,
        Termination::Other(code) => "process terminated abnormally("@ + signed_decimal(code as int)
            + ")"@,
        Termination::Undetermined => "process wait error"@,
    }
}

/// The result message when the command could not be started.
pub open spec fn start_error_message(reason: Seq<char>) -> Seq<char> {
    "process execute error! '"@ + reason + "'"@
}

/// The result message once the command has started.
pub open spec fn started_message(command: Seq<char>) -> Seq<char> {
    "start program! '"@ + command + "'"@
}

/// The result message when waiting for the command failed.
pub open spec fn wait_error_message() -> Seq<char> {
    "process wait error"@
}

/// The exit code of a command that could not be started.
pub const EXIT_NOT_STARTED: u32 = 127;

/// The exit code of a command whose end could not be waited for.
pub const EXIT_WAIT_FAILED: u32 = 128;

/// Classifies a termination into the exit code and the message to record.
pub fn classify(t: Termination) -> (r: (u32, String))
    ensures
        r.0 == exit_code(t),
        r.1@ == exit_message(t),
{
    match t {
        Termination::Exited(code) => (code, concat3("process terminated code(", decimal_of(code).as_str(), ")")),
        Termination::Signaled(sig) => (
            sig as u32 + 128,
            concat3("process received signal(", decimal_of(sig as u32).as_str(), ")"),
        ),
        Termination::Other(code) => (
            code as u32,
            concat3("process terminated abnormally(", signed_decimal_of(code).as_str(), ")"),
        ),
        Termination::Undetermined => (EXIT_WAIT_FAILED, String::from_str("process wait error")),
    }
}

/// The record of one execution attempt.
pub struct Report {
    pub identifer: String,
    /// A token unique to this run.
    pub uuid: String,
    pub hostname: String,
    /// The command line, its words joined by spaces.
    pub command: String,
    pub args: Vec<String>,
    pub exitcode: u32,
    /// A short human-readable account of the outcome.
    pub result: String,
    /// The process id; `0` while the command has not started.
    pub pid: u32,
    pub status: ReportStatus,
    /// The path of the run's log file.
    pub log: String,
    /// When the run started, as RFC 3339 text.
    pub start_at: String,
    /// When the run ended, as RFC 3339 text; `None` until finalized.
    pub end_at: Option<String>,
}

/// Relies on `uuid::Uuid::new_v4`: a random UUID, in its hyphenated text form.
#[verifier::external_body]
fn new_uuid() -> (r: String) {
    uuid::Uuid::new_v4().to_string()
}

/// Relies on `gethostname::gethostname`: the name of this host, with any
/// bytes that are not UTF-8 replaced.
#[verifier::external_body]
fn host_name() -> (r: String) {
    gethostname::gethostname().to_string_lossy().into_owned()
}

/// Relies on `chrono::Local::now` and `DateTime::to_rfc3339`: the current local
/// time as RFC 3339 text.
#[verifier::external_body]
pub(crate) fn local_time() -> (r: String) {
    chrono::Local::now().to_rfc3339()
}

impl Report {
    /// A fresh report of a run that has not started its command yet.
    pub open spec fn is_fresh(&self, identifer: Seq<char>, args: Seq<String>, log: Seq<char>) -> bool {
        &&& self.identifer@ == identifer
        &&& self.command@ == joined(views(args), " "@)
        &&& self.args@ == args
        &&& self.exitcode == 0
        &&& self.result@ == Seq::<char>::empty()
        &&& self.pid == 0
        &&& self.status == ReportStatus::Running
        &&& self.log@ == log
        &&& self.end_at is None
    }

    /// `self` is `before` finalized with the given exit code and result.
    pub open spec fn finalizes(&self, before: &Report, exitcode: u32, result: Seq<char>) -> bool {
        &&& self.identifer == before.identifer
        &&& self.uuid == before.uuid
        &&& self.hostname == before.hostname
        &&& self.command == before.command
        &&& self.args == before.args
        &&& self.pid == before.pid
        &&& self.log == before.log
        &&& self.start_at == before.start_at
        &&& self.exitcode == exitcode
        &&& self.result@ == result
        &&& self.status == ReportStatus::Finished
        &&& self.end_at is Some
    }

    /// A report of a run of `args` under `identifer`, logged to `log`, with
    /// the given run token, host and start time.
    pub fn new(
        identifer: &str,
        args: &Vec<String>,
        log: &str,
        uuid: String,
        hostname: String,
        start_at: String,
    ) -> (r: Report)
        ensures
            r.is_fresh(identifer@, args@, log@),
            r.uuid == uuid,
            r.hostname == hostname,
            r.start_at == start_at,
    {
        proof {
            reveal_strlit(" ");
        }
        let args_copy = args.clone();
        assert(args_copy@ =~= args@);
        Report {
            identifer: String::from_str(identifer),
            uuid,
            hostname,
            command: join(args, " "),
            args: args_copy,
            exitcode: 0,
            result: String::new(),
            pid: 0,
            status: ReportStatus::Running,
            log: String::from_str(log),
            start_at,
            end_at: None,
        }
    }

    /// A report of a run starting now on this host, with a new run token.
    pub fn create(identifer: &str, args: &Vec<String>, log: &str) -> (r: Report)
        ensures
            r.is_fresh(identifer@, args@, log@),
    {
        Report::new(identifer, args, log, new_uuid(), host_name(), local_time())
    }

    /// Records that the command started as process `pid`.
    pub fn started(&mut self, pid: u32)
        ensures
            final(self).pid == pid,
            final(self).result@ == started_message(old(self).command@),
            final(self).identifer == old(self).identifer,
            final(self).uuid == old(self).uuid,
            final(self).hostname == old(self).hostname,
            final(self).command == old(self).command,
            final(self).args == old(self).args,
            final(self).exitcode == old(self).exitcode,
            final(self).status == old(self).status,
            final(self).log == old(self).log,
            final(self).start_at == old(self).start_at,
            final(self).end_at == old(self).end_at,
    {
        self.pid = pid;
        self.result = concat3("start program! '", self.command.as_str(), "'");
    }

    /// Finalizes the report of a command that could not be started.
    pub fn start_failed(&mut self, reason: &str)
        ensures
            final(self).finalizes(old(self), EXIT_NOT_STARTED, start_error_message(reason@)),
    {
        self.exitcode = EXIT_NOT_STARTED;
        self.result = concat3("process execute error! '", reason, "'");
        self.status = ReportStatus::Finished;
        self.end_at = Some(local_time());
    }

    /// Finalizes the report of a command whose end could not be waited for.
    pub fn wait_failed(&mut self)
        ensures
            final(self).finalizes(old(self), EXIT_WAIT_FAILED, wait_error_message()),
    {
        self.exitcode = EXIT_WAIT_FAILED;
        self.result = String::from_str("process wait error");
        self.status = ReportStatus::Finished;
        self.end_at = Some(local_time());
    }

    /// Finalizes the report of a command that ended as `t`.
    pub fn terminated(&mut self, t: Termination)
        ensures
            final(self).finalizes(old(self), exit_code(t), exit_message(t)),
    {
        let (code, message) = classify(t);
        self.exitcode = code;
        self.result = message;
        self.status = ReportStatus::Finished;
        self.end_at = Some(local_time());
    }
}

/// A command that exits normally with code `n` leaves a finished report
/// whose exit code is `n`.
pub proof fn law_normal_exit_code(before: Report, after: Report, n: u32)
    requires
        n <= 255,
        after.finalizes(&before, exit_code(Termination::Exited(n)), exit_message(Termination::Exited(n))),
    ensures
        after.exitcode == n,
        after.status == ReportStatus::Finished,
{
}

/// A command ended by signal `s` leaves a finished report whose exit code is
/// `128 + s`.
pub proof fn law_signal_exit_code(before: Report, after: Report, s: u8)
    requires
        after.finalizes(
            &before,
            exit_code(Termination::Signaled(s)),
            exit_message(Termination::Signaled(s)),
        ),
    ensures
        after.exitcode == 128 + s,
        after.status == ReportStatus::Finished,
{
}

} // verus!
