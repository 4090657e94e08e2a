use wolfcode_lessons::bff::{Credentials, Method, Sent};
use wolfcode_lessons::events::{PasteRecord, TestCounts};
use wolfcode_lessons::files::{FilePath, TestProbe};
use wolfcode_lessons::runner::{
    build_spawn_task, countable_test_outcome, exit_code_of, finish_test, follow_up, or_empty,
    report_step, report_token, run_report, start_report, start_run, start_test, take_snapshot, test_not_run,
    test_outcome, test_report, Report, ReportAction, ReportEvent, ReportState, ReportSubject,
    RunStart, TaskHide, TaskReveal, TaskSave, TaskShell, TaskTarget, Verdict,
};

fn file(dir: &str, name: &str) -> FilePath {
    FilePath {
        text: format!("{dir}/{name}"),
        key: format!("{dir}/{name}"),
        name: Some(name.to_string()),
        exact_name: true,
        parent: Some(dir.to_string()),
    }
}

#[test]
fn spawn_task_is_shown_and_stays() {
    let task = build_spawn_task(
        "i",
        "l",
        "cl",
        "c".to_string(),
        vec!["a".to_string()],
        "d".to_string(),
    );
    assert_eq!((task.id.as_str(), task.full_label.as_str(), task.label.as_str()), ("i", "l", "l"));
    assert_eq!((task.command_label.as_str(), task.command.as_str(), task.cwd.as_str()), ("cl", "c", "d"));
    assert_eq!(task.args, vec!["a".to_string()]);
    assert!(task.use_new_terminal && task.allow_concurrent_runs);
    assert!(task.hide == TaskHide::Never && task.reveal == TaskReveal::Always);
    assert!(task.reveal_target == TaskTarget::Dock && task.shell == TaskShell::System);
    assert!(task.save == TaskSave::Default);
    assert!(task.show_summary && task.show_command && task.show_rerun);
}

#[test]
fn run_needs_an_open_file() {
    assert!(matches!(
        start_run(&None, true),
        RunStart::Refused { toast } if toast == "Open a Python lesson file before pressing Run."
    ));
}

#[test]
fn run_needs_a_python_file() {
    assert!(matches!(
        start_run(&Some(file("/c", "notes.md")), true),
        RunStart::Refused { toast } if toast == "Can't Run this file: notes.md"
    ));
    let mut nameless = file("/c", "x");
    nameless.name = None;
    assert!(matches!(
        start_run(&Some(nameless), true),
        RunStart::Refused { toast } if toast == "Can't Run this file: "
    ));
}

#[test]
fn run_needs_a_terminal() {
    assert!(matches!(start_run(&Some(file("/c", "a.py")), false), RunStart::NoTerminal));
}

#[test]
fn run_starts_in_the_terminal() {
    match start_run(&Some(file("/c", "a.py")), true) {
        RunStart::Started { toast, task, label } => {
            assert_eq!(toast, "▶ Running python a.py in terminal…");
            assert_eq!(label, "python a.py");
            assert_eq!(task.id, "wolfcode-run");
            assert_eq!(task.command, "python a.py");
            assert_eq!(task.command_label, "python a.py");
            assert!(task.args.is_empty());
            assert_eq!(task.cwd, "/c");
        }
        _ => panic!(),
    }
}

#[test]
fn test_starts_hidden_and_in_sight() {
    let probe = TestProbe { file: file("/c", "a.test.py"), exists: true };
    let start = start_test(&file("/c", "a.py"), &probe).unwrap();
    assert_eq!(start.label, "python -m pytest a.test.py");
    assert_eq!(start.command, "python");
    assert_eq!(start.args.len(), 3);
    assert_eq!(start.cwd, "/c");
    assert_eq!(start.visible.id, "wolfcode-test-visible");
    assert_eq!(start.visible.command, "python -m pytest -v a.test.py");
    assert_eq!(start.visible.label, "python -m pytest -v a.test.py");
    assert!(start.visible.args.is_empty());
    assert_eq!(start.visible.cwd, "/c");
    let probe = TestProbe { file: file("/c", "a.test.py"), exists: false };
    assert!(start_test(&file("/c", "a.py"), &probe).is_none());
}

#[test]
fn tests_that_cannot_run_are_told() {
    assert_eq!(test_not_run("not found"), "Test failed: couldn't run pytest — not found");
}

#[test]
fn all_passed_is_celebrated() {
    let r = test_outcome("1 passed in 0.1s", 0);
    assert!(matches!(r.verdict, Verdict::AllPassed));
    assert_eq!(r.toast, "✓ All 1 test passed!");
    let r = test_outcome("3 passed in 0.1s", 0);
    assert_eq!(r.toast, "✓ All 3 tests passed!");
    assert_eq!((r.counts.passed, r.counts.failed, r.counts.total), (3, 0, 3));
}

#[test]
fn what_follows_a_test_run() {
    let next = |stdout: &str| {
        let next = follow_up(&test_outcome(stdout, 0).verdict);
        (next.forget, next.refresh, next.keep, next.explain)
    };
    assert_eq!(next("3 passed in 0.1s"), (true, true, false, false));
    assert_eq!(next("2 failed, 3 passed in 0.1s"), (false, false, true, true));
    assert_eq!(next("boom"), (false, false, false, false));
}

#[test]
fn some_failed_is_explained() {
    let r = test_outcome("2 failed, 3 passed in 0.1s", 1);
    assert!(matches!(r.verdict, Verdict::SomeFailed));
    assert_eq!(r.toast, "✗ 2 failed / 3 passed (of 5) — click 💡 in Tutor for an explanation");
    assert_eq!((r.counts.passed, r.counts.failed, r.counts.total), (3, 2, 5));
}

#[test]
fn no_summary_shows_the_exit_code() {
    let r = test_outcome("boom", -1);
    assert!(matches!(r.verdict, Verdict::NoSummary));
    assert_eq!(
        r.toast,
        "Test ran (exit -1) but no pass/fail summary found. Check the file pattern."
    );
    assert_eq!(r.counts.total, 0);
}

#[test]
fn counts_beyond_reporting_are_refused() {
    assert!(countable_test_outcome("4294967295 passed, 1 failed", 0).is_none());
    assert!(countable_test_outcome("4294967294 passed, 1 failed", 0).is_some());
    assert!(countable_test_outcome("4294967295 passed 4294967295 passed", 0).is_none());
}

#[test]
fn finished_test_reads_the_printed_bytes() {
    let r = finish_test("é\n2 passed in 1s\n".as_bytes(), Some(0));
    assert_eq!(r.stdout, "é\n2 passed in 1s\n");
    assert_eq!(r.exit_code, 0);
    assert_eq!(r.outcome.unwrap().counts.passed, 2);
    let r = finish_test(b"\xff\n1 failed in 1s", None);
    assert_eq!(r.stdout, "\u{fffd}\n1 failed in 1s");
    assert_eq!(r.exit_code, -1);
    assert!(matches!(r.outcome.unwrap().verdict, Verdict::SomeFailed));
    assert_eq!(exit_code_of(Some(5)), 5);
}

#[test]
fn snapshot_keeps_the_failed_run() {
    let r = take_snapshot(
        "l1",
        Some("a.py".to_string()),
        None,
        None,
        Some("t".to_string()),
        "out",
        1,
    );
    assert_eq!(r.lesson_id, "l1");
    assert_eq!(r.student_filename, "a.py");
    assert_eq!(r.student_code, "");
    assert_eq!(r.test_filename, Some(String::new()));
    assert_eq!(r.test_code, Some("t".to_string()));
    assert_eq!(r.test_output, "out");
    assert_eq!(r.exit_code, 1);
    assert_eq!(or_empty(Some("x".to_string())), "x");
}

#[test]
fn reports_need_a_token() {
    assert_eq!(report_token(Credentials::Stored(b"T".to_vec())), Some("T".to_string()));
    assert_eq!(report_token(Credentials::Stored(vec![0xff])), None);
    assert_eq!(report_token(Credentials::Absent), None);
    assert_eq!(report_token(Credentials::Unreadable("e".to_string())), None);
}

#[test]
fn reports_go_to_the_event_log() {
    let r = run_report("T", 42, "l", "c", "python a.py", &Some("x".to_string()));
    assert!(r.method == Method::Post);
    assert_eq!(r.url, "https://wolfcode-bff.quake0day.workers.dev/events/batch");
    assert_eq!(
        r.body.unwrap(),
        "{\"session_id\":\"run-42\",\"events\":[{\"ts\":42,\"type\":\"run\",\"lesson_id\":\"l\",\
         \"course_id\":\"c\",\"kc\":[],\"details\":{\"command\":\"python a.py\",\"code\":\"x\"}}]}"
    );
    let counts = TestCounts { passed: 1, failed: 0, total: 1 };
    let r = test_report("T", 41, 42, "l", "c", &counts, &None);
    assert!(r.body.unwrap().starts_with("{\"session_id\":\"test-41\",\"events\":[{\"ts\":42,\"type\":\"test\""));
}

fn moment(code: Option<&str>) -> ReportEvent {
    ReportEvent::Moment {
        session_ms: 41,
        clock_ms: 42,
        code: code.map(|c| c.to_string()),
    }
}

fn test_report_of(passed: u32) -> Report {
    Report {
        lesson_id: "l".to_string(),
        course_id: "c".to_string(),
        subject: ReportSubject::Test { counts: TestCounts { passed, failed: 0, total: passed } },
    }
}

#[test]
fn report_goes_out_before_the_pastes() {
    let (state, action) = start_report(test_report_of(2));
    assert!(matches!(action, ReportAction::ReadCredentials));
    let (state, action) =
        report_step(state, ReportEvent::Credentials(Credentials::Stored(b"T".to_vec())));
    assert!(matches!(action, ReportAction::ReadMoment { with_code: true }));
    let (state, action) = report_step(state, moment(Some("x = 1")));
    match action {
        ReportAction::Send(request) => {
            assert_eq!(request.headers[0].1, "Bearer T");
            let body = request.body.unwrap();
            assert!(body.starts_with("{\"session_id\":\"test-41\",\"events\":[{\"ts\":42,"));
            assert!(body.ends_with("\"passed\":2,\"failed\":0,\"total\":2,\"code\":\"x = 1\"}}]}"));
        }
        _ => panic!(),
    }
    let (state, action) = report_step(state, ReportEvent::Sent(Sent::Failed("down".to_string())));
    assert!(matches!(action, ReportAction::DrainPastes));
    let records = vec![PasteRecord { ts_ms: 5, bytes: 1, lines: 1, was_blocked: true }];
    let (state, action) = report_step(state, ReportEvent::Pastes(records));
    match action {
        ReportAction::SendPastes(request) => {
            assert!(request.body.unwrap().starts_with("{\"session_id\":\"paste-5\""));
        }
        _ => panic!(),
    }
    let (state, action) =
        report_step(state, ReportEvent::PastesSent(Sent::Failed("down".to_string())));
    assert!(matches!(state, ReportState::Done));
    assert!(matches!(action, ReportAction::Finish));
}

#[test]
fn report_of_a_run_has_the_code_that_was_run() {
    let report = Report {
        lesson_id: "l".to_string(),
        course_id: "c".to_string(),
        subject: ReportSubject::Run {
            command: "python a.py".to_string(),
            code: Some("then".to_string()),
        },
    };
    let (state, action) = report_step(
        start_report(report).0,
        ReportEvent::Credentials(Credentials::Stored(b"T".to_vec())),
    );
    assert!(matches!(action, ReportAction::ReadMoment { with_code: false }));
    let (state, action) = report_step(state, moment(Some("now")));
    match action {
        ReportAction::Send(request) => {
            let body = request.body.unwrap();
            assert!(body.starts_with("{\"session_id\":\"run-42\""));
            assert!(body.contains("\"code\":\"then\""));
        }
        _ => panic!(),
    }
    let (state, _) = report_step(state, ReportEvent::Sent(Sent::Failed(String::new())));
    let (state, action) = report_step(state, ReportEvent::Pastes(Vec::new()));
    assert!(matches!(state, ReportState::Done));
    assert!(matches!(action, ReportAction::Finish));
}

#[test]
fn no_report_without_a_token() {
    for credentials in [
        Credentials::Absent,
        Credentials::Unreadable("x".to_string()),
        Credentials::Stored(vec![0xff]),
    ] {
        let (state, action) = report_step(
            start_report(test_report_of(1)).0,
            ReportEvent::Credentials(credentials),
        );
        assert!(matches!(state, ReportState::Done));
        assert!(matches!(action, ReportAction::Finish));
    }
}
