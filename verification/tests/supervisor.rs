use naide_desktop::inspector::AppInfo;
use naide_desktop::launcher::{launch_plan, StdioMode};
use naide_desktop::supervisor::{
    StopAction, StopError, StopEvent, StopOutcome, StopPhase, StopSequence, Supervisor,
    KILL_CONFIRM_TIMEOUT_MS, POLL_INTERVAL_MS,
};
use naide_desktop::terminator::{
    alive_by_listing, alive_by_status, kill_command, kill_failure, kill_verdict, liveness_probe,
    pid_digits, pid_text, process_listed, LivenessProbe, Platform, ToolRun,
};

fn npm(script: Option<&str>, subdir: Option<&str>) -> AppInfo {
    AppInfo {
        app_type: "npm".to_string(),
        project_file: subdir.map(|s| s.to_string()),
        command: script.map(|s| s.to_string()),
    }
}

fn dotnet(file: Option<&str>) -> AppInfo {
    AppInfo { app_type: "dotnet".to_string(), project_file: file.map(|s| s.to_string()), command: None }
}

#[test]
fn npm_plan_runs_the_script_in_the_project() {
    let plan = launch_plan(&npm(Some("dev"), None), "/work/site").unwrap();
    assert_eq!(plan.program, "npm");
    assert_eq!(plan.args, vec!["run".to_string(), "dev".to_string()]);
    assert!(plan.file_arg.is_none());
    assert_eq!(plan.working_dir.base, "/work/site");
    assert_eq!(plan.working_dir.relative, None);
    assert!(plan.env.is_empty());
    assert_eq!(plan.stdin, StdioMode::Null);
    assert_eq!(plan.stdout, StdioMode::Piped);
    assert_eq!(plan.stderr, StdioMode::Piped);
}

#[test]
fn npm_plan_runs_in_the_subdirectory_of_the_manifest() {
    let plan = launch_plan(&npm(Some("start"), Some("frontend")), "/work/site").unwrap();
    assert_eq!(plan.args, vec!["run".to_string(), "start".to_string()]);
    assert_eq!(plan.working_dir.base, "/work/site");
    assert_eq!(plan.working_dir.relative, Some("frontend".to_string()));
}

#[test]
fn dotnet_plan_watches_the_project_file() {
    let plan = launch_plan(&dotnet(Some("src/Api/Api.csproj")), "/work/site").unwrap();
    assert_eq!(plan.program, "dotnet");
    assert_eq!(
        plan.args,
        vec!["watch".to_string(), "--non-interactive".to_string(), "--project".to_string()]
    );
    let file = plan.file_arg.unwrap();
    assert_eq!(file.base, "/work/site");
    assert_eq!(file.relative, Some("src/Api/Api.csproj".to_string()));
    assert_eq!(plan.working_dir.base, "/work/site");
    assert_eq!(plan.working_dir.relative, None);
    let env: Vec<(String, String)> = plan.env.into_iter().map(|v| (v.name, v.value)).collect();
    assert_eq!(
        env,
        vec![
            ("DOTNET_WATCH_SUPPRESS_LAUNCH_BROWSER".to_string(), "1".to_string()),
            ("HotReloadAutoRestart".to_string(), "true".to_string()),
        ]
    );
    assert_eq!(plan.stdin, StdioMode::Null);
    assert_eq!(plan.stdout, StdioMode::Piped);
    assert_eq!(plan.stderr, StdioMode::Piped);
}

#[test]
fn plan_needs_script_or_project_file() {
    assert_eq!(launch_plan(&npm(None, None), "/p").unwrap_err(), "No script specified for npm app");
    assert_eq!(
        launch_plan(&dotnet(None), "/p").unwrap_err(),
        "No project file specified for .NET app"
    );
}

#[test]
fn plan_for_an_unknown_type_is_refused() {
    let info = AppInfo { app_type: "python".to_string(), project_file: None, command: None };
    assert_eq!(launch_plan(&info, "/p").unwrap_err(), "Unsupported app type: python");
    let info = AppInfo { app_type: "".to_string(), project_file: None, command: None };
    assert_eq!(launch_plan(&info, "/p").unwrap_err(), "Unsupported app type: ");
}

#[test]
fn stop_twice_is_refused_the_second_time() {
    let mut supervisor = Supervisor::new();
    supervisor.record_launch(
        4242,
        "2026-01-31T10:00:00Z".to_string(),
        npm(Some("dev"), None),
        Some("http://localhost:5173".to_string()),
    );
    assert_eq!(supervisor.begin_stop(), Ok(4242));
    assert_eq!(supervisor.begin_stop(), Err(StopError::NoRunningApp));
    assert_eq!(supervisor.begin_stop(), Err(StopError::NoRunningApp));
    assert_eq!(StopError::NoRunningApp.message(), "No running app to stop");
}

#[test]
fn stop_without_a_launch_is_refused() {
    let mut supervisor = Supervisor::new();
    assert_eq!(supervisor.running_pid(), None);
    assert_eq!(supervisor.begin_stop(), Err(StopError::NoRunningApp));
}

#[test]
fn launch_is_recorded_and_reported() {
    let mut supervisor = Supervisor::new();
    let info = supervisor.record_launch(7, "t0".to_string(), npm(Some("dev"), None), None);
    assert_eq!(info.pid, 7);
    assert_eq!(info.url, None);
    assert_eq!(supervisor.running_pid(), Some(7));
    let info = supervisor.record_launch(
        8,
        "t1".to_string(),
        dotnet(Some("Api.csproj")),
        Some("https://localhost:5001".to_string()),
    );
    assert_eq!(info.pid, 8);
    assert_eq!(info.url, Some("https://localhost:5001".to_string()));
    assert_eq!(supervisor.running_pid(), Some(8));
}

#[test]
fn url_is_attached_only_to_a_running_app() {
    let mut supervisor = Supervisor::new();
    assert!(!supervisor.attach_url("http://localhost:1".to_string()));
    assert_eq!(supervisor.running_pid(), None);
    supervisor.record_launch(9, "t".to_string(), npm(Some("dev"), None), None);
    assert!(supervisor.attach_url("http://localhost:1".to_string()));
    assert_eq!(supervisor.running_pid(), Some(9));
}

#[test]
fn shutdown_takes_the_process_off_the_record() {
    let mut supervisor = Supervisor::new();
    assert_eq!(supervisor.shutdown(), None);
    supervisor.record_launch(11, "t".to_string(), npm(Some("dev"), None), None);
    assert_eq!(supervisor.shutdown(), Some(11));
    assert_eq!(supervisor.shutdown(), None);
    assert_eq!(supervisor.begin_stop(), Err(StopError::NoRunningApp));
}

#[test]
fn stop_of_a_process_that_dies_at_once() {
    let (mut seq, action) = StopSequence::begin(77);
    assert_eq!(action, StopAction::Kill { pid: 77 });
    assert_eq!(seq.on_event(StopEvent::KillDone { ok: true }), StopAction::CheckAlive { pid: 77 });
    assert_eq!(
        seq.on_event(StopEvent::Liveness { alive: false, elapsed_ms: 3 }),
        StopAction::Finish(StopOutcome::ConfirmedDead)
    );
    assert_eq!(seq.phase, StopPhase::Over(StopOutcome::ConfirmedDead));
}

#[test]
fn stop_polls_until_the_process_is_dead() {
    assert_eq!(POLL_INTERVAL_MS, 100);
    let (mut seq, _) = StopSequence::begin(5);
    seq.on_event(StopEvent::KillDone { ok: true });
    let mut elapsed = 0;
    for _ in 0..7 {
        assert_eq!(
            seq.on_event(StopEvent::Liveness { alive: true, elapsed_ms: elapsed }),
            StopAction::Sleep { millis: 100 }
        );
        elapsed += 100;
        assert_eq!(seq.on_event(StopEvent::Slept), StopAction::CheckAlive { pid: 5 });
    }
    assert_eq!(
        seq.on_event(StopEvent::Liveness { alive: false, elapsed_ms: elapsed }),
        StopAction::Finish(StopOutcome::ConfirmedDead)
    );
}

#[test]
fn stop_gives_up_when_the_time_is_up() {
    assert_eq!(KILL_CONFIRM_TIMEOUT_MS, 5000);
    let (mut seq, _) = StopSequence::begin(5);
    seq.on_event(StopEvent::KillDone { ok: true });
    assert_eq!(
        seq.on_event(StopEvent::Liveness { alive: true, elapsed_ms: 4999 }),
        StopAction::Sleep { millis: 100 }
    );
    seq.on_event(StopEvent::Slept);
    assert_eq!(
        seq.on_event(StopEvent::Liveness { alive: true, elapsed_ms: 5000 }),
        StopAction::Finish(StopOutcome::StillAlive)
    );
    assert_eq!(seq.on_event(StopEvent::Slept), StopAction::Finish(StopOutcome::StillAlive));
    assert_eq!(
        seq.on_event(StopEvent::Liveness { alive: false, elapsed_ms: 6000 }),
        StopAction::Finish(StopOutcome::StillAlive)
    );
}

#[test]
fn failed_kill_ends_the_stop() {
    let (mut seq, _) = StopSequence::begin(5);
    assert_eq!(seq.on_event(StopEvent::KillDone { ok: false }), StopAction::Finish(StopOutcome::KillFailed));
    assert_eq!(seq.on_event(StopEvent::KillDone { ok: true }), StopAction::Finish(StopOutcome::KillFailed));
}

#[test]
fn report_that_answers_nothing_asked_changes_nothing() {
    let (mut seq, _) = StopSequence::begin(5);
    assert_eq!(seq.on_event(StopEvent::Slept), StopAction::Kill { pid: 5 });
    assert_eq!(
        seq.on_event(StopEvent::Liveness { alive: false, elapsed_ms: 0 }),
        StopAction::Kill { pid: 5 }
    );
    assert_eq!(seq.action(), StopAction::Kill { pid: 5 });
    seq.on_event(StopEvent::KillDone { ok: true });
    assert_eq!(seq.on_event(StopEvent::Slept), StopAction::CheckAlive { pid: 5 });
    assert_eq!(seq.on_event(StopEvent::KillDone { ok: false }), StopAction::CheckAlive { pid: 5 });
}

#[test]
fn pid_is_written_in_decimal() {
    let text = |n: u32| pid_digits(n).into_iter().collect::<String>();
    assert_eq!(text(0), "0");
    assert_eq!(text(7), "7");
    assert_eq!(text(10), "10");
    assert_eq!(text(4242), "4242");
    assert_eq!(text(1234567890), "1234567890");
    assert_eq!(text(u32::MAX), "4294967295");
}

#[test]
fn task_listing_shows_a_running_process() {
    let listing = "node.exe                      4242 Console                    1     52,316 K";
    assert!(process_listed(listing, 4242));
    assert!(!process_listed(listing, 4243));
    assert!(!process_listed("INFO: No tasks are running which match the specified criteria.", 4242));
    assert!(!process_listed("INFO: No tasks are running for 4242", 4242));
    assert!(!process_listed("", 4242));
}

#[test]
fn kill_tool_depends_on_the_platform() {
    let tool = kill_command(Platform::Windows, 4242);
    assert_eq!(tool.program, "taskkill");
    assert_eq!(tool.args, vec!["/PID", "4242", "/T", "/F"]);
    let tool = kill_command(Platform::Other, 4242);
    assert_eq!(tool.program, "kill");
    assert_eq!(tool.args, vec!["-9", "4242"]);
    assert_eq!(pid_text(0), "0");
    assert_eq!(pid_text(u32::MAX), "4294967295");
}

fn refused() -> ToolRun {
    ToolRun::Exited { success: false, errors: "kill: (4242): Operation not permitted".to_string() }
}

fn done() -> ToolRun {
    ToolRun::Exited { success: true, errors: String::new() }
}

#[test]
fn kill_of_a_dead_process_counts_as_made() {
    assert_eq!(kill_verdict(4242, done(), false), Ok(()));
    assert_eq!(kill_verdict(4242, refused(), false), Ok(()));
    let gone = ToolRun::Exited { success: false, errors: "kill: (4242): No such process".to_string() };
    assert_eq!(kill_verdict(4242, gone, false), Ok(()));
    assert_eq!(kill_verdict(4242, ToolRun::NotStarted("program not found".to_string()), false), Ok(()));
}

#[test]
fn failed_kill_of_a_live_process_is_reported() {
    assert_eq!(
        kill_verdict(4242, refused(), true),
        Err("Failed to kill process 4242: kill: (4242): Operation not permitted".to_string())
    );
    assert_eq!(
        kill_verdict(7, ToolRun::NotStarted("program not found".to_string()), true),
        Err("Failed to kill process 7: program not found".to_string())
    );
    let silent = ToolRun::Exited { success: false, errors: String::new() };
    assert_eq!(kill_verdict(0, silent, true), Err("Failed to kill process 0: ".to_string()));
}

#[test]
fn kill_that_the_tool_made_counts_while_the_process_still_lives() {
    assert_eq!(kill_verdict(4242, done(), true), Ok(()));
    let noisy = ToolRun::Exited { success: true, errors: "warning".to_string() };
    assert_eq!(kill_verdict(4242, noisy, true), Ok(()));
}

#[test]
fn cause_of_a_failed_kill() {
    assert_eq!(kill_failure(done()), None);
    assert_eq!(kill_failure(refused()), Some("kill: (4242): Operation not permitted".to_string()));
    assert_eq!(kill_failure(ToolRun::NotStarted("no".to_string())), Some("no".to_string()));
}

#[test]
fn liveness_probe_depends_on_the_platform() {
    match liveness_probe(Platform::Windows, 77) {
        LivenessProbe::Listing(tool) => {
            assert_eq!(tool.program, "tasklist");
            assert_eq!(tool.args, vec!["/FI", "PID eq 77", "/NH"]);
        }
        LivenessProbe::Status(path) => panic!("unexpected status probe {}", path),
    }
    match liveness_probe(Platform::Other, 77) {
        LivenessProbe::Status(path) => assert_eq!(path, "/proc/77/stat"),
        LivenessProbe::Listing(tool) => panic!("unexpected tool {}", tool.program),
    }
}

#[test]
fn zombie_counts_as_dead() {
    let status = |text: &str| alive_by_status(Some(text.to_string()));
    assert!(!status("4242 (node) Z 1 4242 4242 0 -1 4227084 0 0"));
    assert!(!status("4242 (node) X 1 4242"));
    assert!(!status("4242 (node) x 1 4242"));
    assert!(!status("4242 (my (odd) name) Z) Z 1 4242"));
    assert!(!alive_by_status(None));
}

#[test]
fn process_in_any_other_state_lives() {
    let status = |text: &str| alive_by_status(Some(text.to_string()));
    assert!(status("4242 (node) S 1 4242 4242 0 -1 4194304"));
    assert!(status("4242 (node) R 1"));
    assert!(status("4242 (node) D 1"));
    assert!(status("4242 (node) T 1"));
    assert!(status("4242 (Z) S 1"));
    assert!(status("4242 (a) Z) S 1"));
    assert!(status("4242 (name with Z inside) R 1 2 3"));
}

#[test]
fn status_of_another_form_counts_as_alive() {
    let status = |text: &str| alive_by_status(Some(text.to_string()));
    assert!(status(""));
    assert!(status("4242 node Z"));
    assert!(status("4242 (node)"));
    assert!(status("4242 (node) "));
    assert!(status("4242 (node)Z"));
}

#[test]
fn process_that_cannot_be_looked_for_counts_as_dead() {
    assert!(!alive_by_listing(None, 5));
    assert!(!alive_by_listing(Some("INFO: No tasks are running".to_string()), 5));
    assert!(alive_by_listing(Some("node.exe   5 Console".to_string()), 5));
    assert!(!alive_by_listing(Some("node.exe   6 Console".to_string()), 5));
}

#[test]
fn failed_launch_names_program_and_cause() {
    let plan = launch_plan(&npm(Some("dev"), None), "/p").unwrap();
    assert_eq!(plan.failure_message("No such file or directory"), "Failed to start npm: No such file or directory");
    let plan = launch_plan(&dotnet(Some("a.csproj")), "/p").unwrap();
    assert_eq!(plan.failure_message("denied"), "Failed to start dotnet: denied");
}

#[test]
fn stop_of_a_process_that_never_dies_is_bounded() {
    let (mut seq, mut action) = StopSequence::begin(9);
    let mut reports = 0;
    let mut waited_ms = 0;
    loop {
        let event = match action {
            StopAction::Kill { .. } => StopEvent::KillDone { ok: true },
            StopAction::CheckAlive { .. } => StopEvent::Liveness { alive: true, elapsed_ms: waited_ms },
            StopAction::Sleep { millis } => {
                waited_ms += millis;
                StopEvent::Slept
            }
            StopAction::Finish(outcome) => {
                assert_eq!(outcome, StopOutcome::StillAlive);
                break;
            }
        };
        reports += 1;
        assert!(reports <= 102, "the stop sequence did not end");
        action = seq.on_event(event);
    }
    assert_eq!(reports, 102);
    assert_eq!(waited_ms, 5000);
}
