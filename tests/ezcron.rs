use ezcron::config::{Config, ConfigEzCron, ConfigOption};
use ezcron::env::Env;
use ezcron::ezcron::{Action, Event, EzCron, Execution, HookOutcome, Stage, StartupError};
use ezcron::options::{options_end_of, split_assignment, Options, Request};
use ezcron::pid::Pid;
use ezcron::posix::check_err;
use ezcron::report::{ReportStatus, Termination};
use registorder_map::RegistOrderMap;

fn words(ws: &[&str]) -> Vec<String> {
    ws.iter().map(|s| s.to_string()).collect()
}

fn base_config() -> Config {
    Config {
        ezcron: ConfigEzCron { log_dir: "var/log/ezcron".to_string(), pid_dir: "run/ezcron".to_string() },
        option: None,
        options: Vec::new(),
    }
}

fn empty_options(identifer: &str) -> Options {
    let mut opts = Options::new();
    opts.identifer = Some(identifer.to_string());
    opts
}

fn full_options() -> Options {
    Options {
        identifer: Some("test".to_string()),
        help: false,
        version: false,
        multipled: true,
        reports: words(&["report01.sh", "report02.sh"]),
        notifies: words(&["notify01.sh", "notify02.sh"]),
        env: words(&["TEST1=VALUE1", "TEST2=VALUE2"]),
        cwd: Some("/path/to".to_string()),
        conf: Some("./test_ezcron_basic.toml".to_string()),
    }
}

fn block(reports: &[&str], notifies: &[&str], cwd: Option<&str>, env: &[(&str, &str)]) -> ConfigOption {
    let mut map = RegistOrderMap::new();
    for (k, v) in env {
        map.insert(k.to_string(), v.to_string());
    }
    ConfigOption { reports: words(reports), notifies: words(notifies), cwd: cwd.map(|s| s.to_string()), env: map }
}

fn pairs(ps: &[(&str, &str)]) -> Vec<(String, String)> {
    ps.iter().map(|(a, b)| (a.to_string(), b.to_string())).collect()
}

#[test]
fn test_ezcron_basic() {
    let mut env = Env::new();
    let main = EzCron::new(&base_config(), &full_options(), &mut env).unwrap();
    assert_eq!(main.log_dir, "var/log/ezcron".to_string());
    assert_eq!(main.pid_dir, "run/ezcron".to_string());
    assert_eq!(main.identifer, "test".to_string());
    assert_eq!(main.reports, vec!["report01.sh", "report02.sh"]);
    assert_eq!(main.cwd, Some("/path/to".to_string()));
    assert_eq!(main.multipled, true);
    assert_eq!(env.get("TEST1"), "VALUE1");
    assert_eq!(env.get("TEST2"), "VALUE2");
    assert_eq!(main.env, pairs(&[("TEST1", "VALUE1"), ("TEST2", "VALUE2")]));
}

#[test]
fn test_ezcron_option() {
    let mut conf = base_config();
    conf.option = Some(block(&["report00.sh"], &["notify00.sh"], Some("/path/to/base"), &[]));
    let mut env = Env::new();
    let main = EzCron::new(&conf, &full_options(), &mut env).unwrap();
    assert_eq!(main.log_dir, "var/log/ezcron".to_string());
    assert_eq!(main.pid_dir, "run/ezcron".to_string());
    assert_eq!(main.identifer, "test".to_string());
    assert_eq!(main.reports, vec!["report00.sh", "report01.sh", "report02.sh"]);
    assert_eq!(main.notifies, vec!["notify00.sh", "notify01.sh", "notify02.sh"]);
    assert_eq!(main.cwd, Some("/path/to".to_string()));
    assert_eq!(main.multipled, true);
}

#[test]
fn test_ezcron_config() {
    let mut conf = base_config();
    conf.option = Some(block(
        &["report00.sh"],
        &["notify00.sh"],
        Some("/path/to/base"),
        &[("TEST1", "VALUE1"), ("TEST2", "VALUE2")],
    ));
    let mut env = Env::new();
    let main = EzCron::new(&conf, &empty_options("test"), &mut env).unwrap();
    assert_eq!(main.log_dir, "var/log/ezcron".to_string());
    assert_eq!(main.pid_dir, "run/ezcron".to_string());
    assert_eq!(main.identifer, "test".to_string());
    assert_eq!(main.reports, vec!["report00.sh"]);
    assert_eq!(main.notifies, vec!["notify00.sh"]);
    assert_eq!(main.cwd, Some("/path/to/base".to_string()));
    assert_eq!(main.multipled, false);
    assert_eq!(env.get("TEST1"), "VALUE1");
    assert_eq!(env.get("TEST2"), "VALUE2");
}

#[test]
fn test_ezcron_config_options() {
    let mut conf = base_config();
    conf.options.push((
        "test".to_string(),
        block(&["report00.sh"], &["notify00.sh"], Some("/path/to/base"), &[("TEST01", "VALUE1"), ("TEST02", "VALUE2")]),
    ));
    let mut env = Env::new();
    let main = EzCron::new(&conf, &empty_options("test"), &mut env).unwrap();
    assert_eq!(main.log_dir, "var/log/ezcron".to_string());
    assert_eq!(main.pid_dir, "run/ezcron".to_string());
    assert_eq!(main.identifer, "test".to_string());
    assert_eq!(main.reports, vec!["report00.sh"]);
    assert_eq!(main.notifies, vec!["notify00.sh"]);
    assert_eq!(main.cwd, Some("/path/to/base".to_string()));
    assert_eq!(main.multipled, false);
    assert_eq!(env.get("TEST01"), "VALUE1");
    assert_eq!(env.get("TEST02"), "VALUE2");
}

#[test]
fn test_ezcron_cwd() {
    let mut opts = empty_options("test");
    opts.env = words(&["AAA=BBB"]);
    opts.cwd = Some("$AAA".to_string());
    let mut env = Env::new();
    let main = EzCron::new(&base_config(), &opts, &mut env).unwrap();
    assert_eq!(main.cwd, Some("BBB".to_string()));
}

#[test]
fn merge_hooks_global_then_job_then_command_line() {
    let mut conf = base_config();
    conf.option = Some(block(&["g"], &["gn"], Some("/global"), &[]));
    conf.options.push(("other".to_string(), block(&["o"], &["on"], Some("/other"), &[])));
    conf.options.push(("X".to_string(), block(&["p"], &["pn"], None, &[])));
    let mut opts = empty_options("X");
    opts.reports = words(&["c"]);
    opts.notifies = words(&["cn"]);
    let mut env = Env::new();
    let job = EzCron::new(&conf, &opts, &mut env).unwrap();
    assert_eq!(job.reports, words(&["g", "p", "c"]));
    assert_eq!(job.notifies, words(&["gn", "pn", "cn"]));
    assert_eq!(job.cwd, Some("/global".to_string()));
}

#[test]
fn later_sources_see_earlier_variables() {
    let mut conf = base_config();
    conf.option = Some(block(&[], &[], Some("${ROOT}/work"), &[("ROOT", "/srv"), ("DATA", "$ROOT/data")]));
    conf.options.push(("X".to_string(), block(&[], &[], None, &[("LOGS", "$DATA/logs")])));
    let mut opts = empty_options("X");
    opts.env = words(&["FINAL=$LOGS!", "no-equals-sign", "EMPTY="]);
    let mut env = Env::new();
    let job = EzCron::new(&conf, &opts, &mut env).unwrap();
    assert_eq!(
        job.env,
        pairs(&[
            ("ROOT", "/srv"),
            ("DATA", "/srv/data"),
            ("LOGS", "/srv/data/logs"),
            ("FINAL", "/srv/data/logs!"),
            ("EMPTY", ""),
        ])
    );
    assert_eq!(job.cwd, Some("/srv/work".to_string()));
}

#[test]
fn missing_identifier_is_a_startup_error() {
    let mut opts = empty_options("x");
    opts.identifer = None;
    let mut env = Env::new();
    assert!(matches!(EzCron::new(&base_config(), &opts, &mut env), Err(StartupError::MissingIdentifier)));
}

#[test]
fn unsettled_expansion_is_a_startup_error() {
    let mut opts = empty_options("x");
    opts.env = words(&["SELF=$SELF", "LOOP=$SELF"]);
    let mut env = Env::new();
    env.set("SELF", "$SELF");
    match EzCron::new(&base_config(), &opts, &mut env) {
        Err(StartupError::Unsettled(value)) => assert_eq!(value, "$SELF"),
        _ => panic!("expected an unsettled expansion"),
    }
}

#[test]
fn test_pid() {
    let mut pid = Pid::new("test_pid", false, "./");
    assert_eq!(pid.path, "./test_pid.pid");
    assert_eq!(pid.touch(100), true);
    assert_eq!(pid.pid, 100);
    assert_eq!(pid.is_exists(true), true);
    assert_eq!(pid.releases(), true);
}

#[test]
fn marker_of_overlapping_job_is_never_kept() {
    let mut pid = Pid::new("job", true, "run");
    assert_eq!(pid.path, "run/job.pid");
    assert_eq!(pid.is_exists(true), false);
    assert_eq!(pid.touch(7), false);
    assert_eq!(pid.releases(), false);
    let fresh = Pid::new("job", false, "run");
    assert_eq!(fresh.releases(), false);
    assert_eq!(fresh.is_exists(false), false);
}

#[test]
fn check_err_passes_non_negative() {
    assert_eq!(check_err(0), Ok(0));
    assert_eq!(check_err(5), Ok(5));
    assert_eq!(check_err(-1), Err(-1));
}

#[test]
fn command_line_split_and_requests() {
    let args = words(&["-m", "test", "--", "ls", "-al"]);
    assert_eq!(options_end_of(&args), 3);
    assert_eq!(options_end_of(&words(&["test"])), 1);
    assert_eq!(options_end_of(&words(&[])), 0);
    assert_eq!(split_assignment("A=b=c"), Some(("A".to_string(), "b=c".to_string())));
    assert_eq!(split_assignment("A="), Some(("A".to_string(), String::new())));
    assert_eq!(split_assignment("A"), None);

    let mut opts = empty_options("test");
    assert_eq!(opts.request(2), Request::Run);
    assert_eq!(opts.request(0), Request::Usage);
    opts.version = true;
    assert_eq!(opts.request(2), Request::Version);
    opts.help = true;
    assert_eq!(opts.request(2), Request::Usage);
    opts.help = false;
    opts.version = false;
    opts.identifer = None;
    assert_eq!(opts.request(2), Request::Usage);
}

fn job(notifies: &[&str], reports: &[&str], multipled: bool) -> EzCron {
    EzCron {
        log_dir: "logs".to_string(),
        pid_dir: "run".to_string(),
        identifer: "backup".to_string(),
        reports: words(reports),
        notifies: words(notifies),
        cwd: None,
        multipled,
        env: Vec::new(),
    }
}

/// Steps the run, collecting its log lines, and returns the action.
fn feed(exec: &mut Execution, job: &EzCron, event: Event, log: &mut Vec<String>) -> Action {
    let step = exec.step(job, event);
    log.extend(step.log);
    step.action
}

#[test]
fn false_command_without_hooks() {
    let job = job(&[], &[], false);
    let mut exec = job.run(&words(&["false"]));
    let mut log = Vec::new();
    assert_eq!(feed(&mut exec, &job, Event::Checked(false), &mut log), Action::OpenLog);
    assert_eq!(feed(&mut exec, &job, Event::LogOpened("logs/x.log".to_string()), &mut log), Action::Spawn);
    assert_eq!(feed(&mut exec, &job, Event::Spawned(321), &mut log), Action::WriteMarker(321));
    assert_eq!(feed(&mut exec, &job, Event::MarkerWritten, &mut log), Action::ReadOutput);
    assert_eq!(feed(&mut exec, &job, Event::OutputEnded, &mut log), Action::Wait);
    assert_eq!(feed(&mut exec, &job, Event::Terminated(Termination::Exited(1)), &mut log), Action::Finish);
    let report = exec.report.as_ref().unwrap();
    assert_eq!(report.exitcode, 1);
    assert_eq!(report.status, ReportStatus::Finished);
    assert_eq!(report.pid, 321);
    assert_eq!(report.log, "logs/x.log");
    assert_eq!(log, words(&["start program! 'false'", "--------", "--------", "process terminated code(1)"]));
    assert_eq!(exec.stage, Stage::Done);
    assert!(exec.marker.releases());
}

#[test]
fn overlapping_invocations_of_a_non_concurrent_job() {
    let job = job(&[], &[], false);
    let command = words(&["sleep", "5"]);
    let mut first = job.run(&command);
    let mut log = Vec::new();
    assert_eq!(feed(&mut first, &job, Event::Checked(false), &mut log), Action::OpenLog);
    feed(&mut first, &job, Event::LogOpened("a.log".to_string()), &mut log);
    assert_eq!(feed(&mut first, &job, Event::Spawned(10), &mut log), Action::WriteMarker(10));
    assert_eq!(first.marker.path, "run/backup.pid");

    let mut second = job.run(&command);
    let mut second_log = Vec::new();
    assert_eq!(feed(&mut second, &job, Event::Checked(true), &mut second_log), Action::Skip);
    assert!(second.report.is_none());
    assert!(second_log.is_empty());
    assert_eq!(feed(&mut second, &job, Event::LogOpened("b.log".to_string()), &mut second_log), Action::Ignore);
    assert!(second.report.is_none());

    feed(&mut first, &job, Event::MarkerWritten, &mut log);
    feed(&mut first, &job, Event::OutputEnded, &mut log);
    assert_eq!(feed(&mut first, &job, Event::Terminated(Termination::Exited(0)), &mut log), Action::Finish);
    assert!(first.report.is_some());
    assert!(first.marker.releases());

    let mut third = job.run(&command);
    assert_eq!(feed(&mut third, &job, Event::Checked(false), &mut Vec::new()), Action::OpenLog);
}

#[test]
fn concurrent_job_ignores_the_marker() {
    let job = job(&[], &[], true);
    let mut exec = job.run(&words(&["true"]));
    let mut log = Vec::new();
    assert_eq!(feed(&mut exec, &job, Event::Checked(true), &mut log), Action::OpenLog);
    feed(&mut exec, &job, Event::LogOpened("l".to_string()), &mut log);
    assert_eq!(feed(&mut exec, &job, Event::Spawned(5), &mut log), Action::ReadOutput);
    assert!(!exec.marker.releases());
}

#[test]
fn hooks_run_in_order_and_failures_do_not_stop_them() {
    let job = job(&["n1", "n2"], &["r1", "r2", "r3"], true);
    let mut exec = job.run(&words(&["echo", "hi"]));
    let mut log = Vec::new();
    feed(&mut exec, &job, Event::Checked(false), &mut log);
    feed(&mut exec, &job, Event::LogOpened("l".to_string()), &mut log);
    assert_eq!(feed(&mut exec, &job, Event::Spawned(9), &mut log), Action::RunNotify(0));
    let failed = HookOutcome::NotStarted("boom".to_string());
    assert_eq!(feed(&mut exec, &job, Event::HookEnded(failed), &mut log), Action::RunNotify(1));
    let ran = HookOutcome::Ran(words(&["notified"]));
    assert_eq!(feed(&mut exec, &job, Event::HookEnded(ran), &mut log), Action::ReadOutput);
    assert_eq!(feed(&mut exec, &job, Event::Output("hi".to_string()), &mut log), Action::ReadOutput);
    assert_eq!(feed(&mut exec, &job, Event::OutputEnded, &mut log), Action::Wait);
    assert_eq!(feed(&mut exec, &job, Event::Terminated(Termination::Signaled(15)), &mut log), Action::RunReport(0));
    assert_eq!(exec.report.as_ref().unwrap().exitcode, 143);
    let failed = HookOutcome::NotStarted("gone".to_string());
    assert_eq!(feed(&mut exec, &job, Event::HookEnded(failed), &mut log), Action::RunReport(1));
    let ran = HookOutcome::Ran(Vec::new());
    assert_eq!(feed(&mut exec, &job, Event::HookEnded(ran), &mut log), Action::RunReport(2));
    let ran = HookOutcome::Ran(words(&["sent"]));
    assert_eq!(feed(&mut exec, &job, Event::HookEnded(ran), &mut log), Action::Finish);
    assert_eq!(
        log,
        words(&[
            "starting notify! 'n1'",
            "--------",
            "process starting error! 'boom'",
            "--------",
            "starting notify! 'n2'",
            "--------",
            "notified",
            "--------",
            "start program! 'echo hi'",
            "--------",
            "hi",
            "--------",
            "process received signal(15)",
            "--------",
            "starting report! 'r1'",
            "--------",
            "process starting error! 'gone'",
            "--------",
            "starting report! 'r2'",
            "--------",
            "--------",
            "starting report! 'r3'",
            "--------",
            "sent",
        ])
    );
}

#[test]
fn spawn_failure_skips_notify_and_runs_reports() {
    let job = job(&["n1"], &["r1"], false);
    let mut exec = job.run(&words(&["missing-program"]));
    let mut log = Vec::new();
    feed(&mut exec, &job, Event::Checked(false), &mut log);
    feed(&mut exec, &job, Event::LogOpened("l".to_string()), &mut log);
    let action = feed(&mut exec, &job, Event::SpawnFailed("not found".to_string()), &mut log);
    assert_eq!(action, Action::RunReport(0));
    let report = exec.report.as_ref().unwrap();
    assert_eq!(report.exitcode, 127);
    assert_eq!(report.pid, 0);
    assert_eq!(report.status, ReportStatus::Finished);
    assert!(!exec.marker.releases());
    assert_eq!(
        log,
        words(&["--------", "process execute error! 'not found'", "--------", "starting report! 'r1'", "--------"])
    );
}

#[test]
fn wait_failure_is_reported_as_128() {
    let job = job(&[], &[], true);
    let mut exec = job.run(&words(&["x"]));
    let mut log = Vec::new();
    feed(&mut exec, &job, Event::Checked(false), &mut log);
    feed(&mut exec, &job, Event::LogOpened("l".to_string()), &mut log);
    feed(&mut exec, &job, Event::Spawned(3), &mut log);
    feed(&mut exec, &job, Event::OutputEnded, &mut log);
    assert_eq!(feed(&mut exec, &job, Event::WaitFailed, &mut log), Action::Finish);
    assert_eq!(exec.report.as_ref().unwrap().exitcode, 128);
    assert_eq!(exec.report.as_ref().unwrap().result, "process wait error");
}

#[test]
fn events_out_of_place_are_ignored() {
    let job = job(&[], &[], false);
    let mut exec = job.run(&words(&["x"]));
    let mut log = Vec::new();
    assert_eq!(feed(&mut exec, &job, Event::OutputEnded, &mut log), Action::Ignore);
    assert_eq!(exec.stage, Stage::Checking);
    feed(&mut exec, &job, Event::Checked(false), &mut log);
    assert_eq!(feed(&mut exec, &job, Event::Spawned(1), &mut log), Action::Ignore);
    assert!(exec.report.is_none());
    assert!(log.is_empty());
}

#[test]
fn config_option_new_is_empty() {
    let o = ConfigOption::new();
    assert!(o.reports.is_empty());
    assert!(o.notifies.is_empty());
    assert!(o.cwd.is_none());
    assert!(o.env_assignments().is_empty());
    let b = block(&[], &[], None, &[("B", "2"), ("A", "1"), ("B", "3")]);
    assert_eq!(b.env_assignments(), pairs(&[("B", "3"), ("A", "1")]));
}

#[test]
fn log_file_is_named_by_stamp_and_job() {
    let job = job(&[], &[], false);
    assert_eq!(job.log_path("20240101-093000"), "logs/20240101-093000-backup.log");
}
