//! Running a lesson's code and running its tests.

use crate::bff::{
    bearer, events_request, flush_view, paste_request, paste_view, post_view, token_of,
    Credentials, Method, Request, RequestView, Sent, Token, BFF_URL,
};
use crate::events::{
    batch_tree, run_batch, run_tree, test_batch, test_tree, PasteRecord, TestCounts,
};
use crate::files::{
    build_run_command, build_test_command, is_at, run_command, test_command, test_place,
    CommandView, FilePath, TestProbe,
};
use crate::json::{json_text, JsonTree};
use crate::pytest::{
    counting_words, failed_tests, is_thing, law_only_failures_count_as_failed,
    parse_pytest_summary, passed_tests, pytest_totals, summary_of, total_of,
};
use crate::text::{
    decimal, decimal_text, ends_line, opt_view, signed_decimal, signed_decimal_text, views, words,
};
use vstd::prelude::*;
use vstd::utf8::{decode_utf8, valid_utf8};

verus! {

// ---------------------------------------------------------------------------
// Tasks in the terminal
// ---------------------------------------------------------------------------

/// When the terminal of a task is hidden.
#[derive(Clone, Copy, PartialEq, Eq, Structural)]
pub enum TaskHide {
    Never,
}

/// When the terminal of a task is brought up.
#[derive(Clone, Copy, PartialEq, Eq, Structural)]
pub enum TaskReveal {
    Always,
}

/// Where the terminal of a task is brought up.
#[derive(Clone, Copy, PartialEq, Eq, Structural)]
pub enum TaskTarget {
    Dock,
}

/// What a task is run by.
#[derive(Clone, Copy, PartialEq, Eq, Structural)]
pub enum TaskShell {
    /// The shell of the system.
    System,
}

/// Which files are saved before a task is run.
#[derive(Clone, Copy, PartialEq, Eq, Structural)]
pub enum TaskSave {
    /// Those that the editor saves if it is told nothing.
    Default,
}

/// A task for the terminal of the editor. It gets a terminal of its own in the
/// dock, which is shown at once and stays. Nothing is added to the environment
/// that the terminal has.
pub struct SpawnTask {
    pub id: String,
    pub full_label: String,
    pub label: String,
    pub command_label: String,
    pub command: String,
    pub args: Vec<String>,
    /// The key of the directory.
    pub cwd: String,
    pub use_new_terminal: bool,
    pub allow_concurrent_runs: bool,
    pub hide: TaskHide,
    pub reveal: TaskReveal,
    pub reveal_target: TaskTarget,
    pub shell: TaskShell,
    pub save: TaskSave,
    pub show_summary: bool,
    pub show_command: bool,
    pub show_rerun: bool,
}

/// Whether a task is the one that runs `command` under that id.
pub open spec fn runs(task: SpawnTask, id: Seq<char>, command: CommandView) -> bool {
    &&& task.id@ == id
    &&& task.full_label@ == command.label
    &&& task.label@ == command.label
    &&& task.command_label@ == command.label
    &&& task.command@ == command.command
    &&& views(task.args@) == command.args
    &&& task.cwd@ == command.cwd
    &&& task.use_new_terminal
    &&& task.allow_concurrent_runs
    &&& task.hide == TaskHide::Never
    &&& task.reveal == TaskReveal::Always
    &&& task.reveal_target == TaskTarget::Dock
    &&& task.shell == TaskShell::System
    &&& task.save == TaskSave::Default
    &&& task.show_summary
    &&& task.show_command
    &&& task.show_rerun
}

/// The task that runs a command.
pub fn build_spawn_task(
    id: &str,
    label: &str,
    command_label: &str,
    command: String,
    args: Vec<String>,
    cwd: String,
) -> (task: SpawnTask)
    ensures
        task.id@ == id@,
        task.full_label@ == label@,
        task.label@ == label@,
        task.command_label@ == command_label@,
        task.command == command,
        task.args == args,
        task.cwd == cwd,
        task.use_new_terminal && task.allow_concurrent_runs,
        task.hide == TaskHide::Never,
        task.reveal == TaskReveal::Always,
        task.reveal_target == TaskTarget::Dock,
        task.shell == TaskShell::System,
        task.save == TaskSave::Default,
        task.show_summary && task.show_command && task.show_rerun,
{
    SpawnTask {
        id: id.to_string(),
        full_label: label.to_string(),
        label: label.to_string(),
        command_label: command_label.to_string(),
        command,
        args,
        cwd,
        use_new_terminal: true,
        allow_concurrent_runs: true,
        hide: TaskHide::Never,
        reveal: TaskReveal::Always,
        reveal_target: TaskTarget::Dock,
        shell: TaskShell::System,
        save: TaskSave::Default,
        show_summary: true,
        show_command: true,
        show_rerun: true,
    }
}

// ---------------------------------------------------------------------------
// Run
// ---------------------------------------------------------------------------

/// What comes of asking for a run.
pub enum RunStart {
    /// Nothing, but for a word to the student.
    Refused { toast: String },
    /// Nothing: there is no terminal to run it in.
    NoTerminal,
    /// A task, which the student is told of and sees by this label.
    Started { toast: String, task: SpawnTask, label: String },
}

/// Whether `start` is what comes of asking for a run while that file is open.
pub open spec fn run_starts(path: Option<FilePath>, has_terminal: bool, start: RunStart) -> bool {
    match path {
        None => start matches RunStart::Refused { toast } && toast@
            == "Open a Python lesson file before pressing Run."@,
        Some(path) => match run_command(path) {
            None => start matches RunStart::Refused { toast } && toast@ == "Can't Run this file: "@
                + (match path.name {
                Some(name) => name@,
                None => seq![],
            }),
            Some(command) => if has_terminal {
                start matches RunStart::Started { toast, task, label } && {
                    &&& toast@ == "▶ Running "@ + command.label + " in terminal…"@
                    &&& runs(task, "wolfcode-run"@, command)
                    &&& label@ == command.label
                }
            } else {
                start is NoTerminal
            },
        },
    }
}

/// Starts a run of the file that is open.
pub fn start_run(path: &Option<FilePath>, has_terminal: bool) -> (start: RunStart)
    ensures
        run_starts(*path, has_terminal, start),
{
    match path {
        None => RunStart::Refused {
            toast: "Open a Python lesson file before pressing Run.".to_string(),
        },
        Some(path) => match build_run_command(path) {
            None => {
                let mut toast = "Can't Run this file: ".to_string();
                match &path.name {
                    Some(name) => {
                        toast.append(name.as_str());
                    },
                    None => {
                        assert(toast@ =~= "Can't Run this file: "@ + seq![]);
                    },
                }
                RunStart::Refused { toast }
            },
            Some((label, command, args, cwd)) => {
                if !has_terminal {
                    return RunStart::NoTerminal;
                }
                let mut toast = "▶ Running ".to_string();
                toast.append(label.as_str());
                toast.append(" in terminal…");
                let task = build_spawn_task(
                    "wolfcode-run",
                    label.as_str(),
                    label.as_str(),
                    command,
                    args,
                    cwd,
                );
                RunStart::Started { toast, task, label }
            },
        },
    }
}

/// The token that the keychain has, where it has one.
pub open spec fn stored_token(credentials: Credentials) -> Option<Seq<char>> {
    match credentials {
        Credentials::Stored(bytes) => if valid_utf8(bytes@) {
            Some(decode_utf8(bytes@))
        } else {
            None
        },
        _ => None,
    }
}

/// The token that the keychain has, where it has one. Reports are made as far
/// as possible: without a token there is none, and nobody is told.
pub fn report_token(credentials: Credentials) -> (r: Option<String>)
    ensures
        opt_view(r) == stored_token(credentials),
{
    match token_of(credentials) {
        Token::Present(jwt) => Some(jwt),
        _ => None,
    }
}

/// Reports a run, by the time on the clock: `command` as the student saw it,
/// and the code that was run.
pub fn run_report(
    jwt: &str,
    clock_ms: u128,
    lesson_id: &str,
    course_id: &str,
    command: &str,
    code: &Option<String>,
) -> (r: Request)
    ensures
        r@ == post_view(
            "/events/batch"@,
            jwt@,
            batch_tree(
                "run-"@ + decimal((clock_ms as u64) as nat),
                seq![run_tree(clock_ms as u64, lesson_id@, course_id@, command@, opt_view(*code))],
            ),
        ),
{
    let (session_id, events) = run_batch(clock_ms, lesson_id, course_id, command, code);
    events_request(jwt, session_id.as_str(), events)
}

// ---------------------------------------------------------------------------
// Test
// ---------------------------------------------------------------------------

/// A test run to be made: the program and its arguments, and the task that
/// shows the same run to the student.
pub struct TestStart {
    pub label: String,
    pub command: String,
    pub args: Vec<String>,
    pub cwd: String,
    pub visible: SpawnTask,
}

/// The command by which the student sees a test run.
pub open spec fn visible_command(command: CommandView) -> CommandView {
    CommandView {
        label: "python -m pytest -v "@ + command.args.last(),
        command: "python -m pytest -v "@ + command.args.last(),
        args: seq![],
        cwd: command.cwd,
    }
}

/// Whether a test run is the one that `command` asks for.
pub open spec fn tests(start: TestStart, command: CommandView) -> bool {
    &&& start.label@ == command.label
    &&& start.command@ == command.command
    &&& views(start.args@) == command.args
    &&& start.cwd@ == command.cwd
    &&& runs(start.visible, "wolfcode-test-visible"@, visible_command(command))
}

/// Prepares a test run of the file that is open, given what is at the place of
/// its test file; nothing where there are no tests.
pub fn start_test(path: &FilePath, probe: &TestProbe) -> (r: Option<TestStart>)
    requires
        test_place(path.text@) matches Some(place) ==> is_at(probe.file, place, *path),
    ensures
        match test_command(path.text@, *probe) {
            Some(command) => r matches Some(start) && tests(start, command),
            None => r is None,
        },
{
    match build_test_command(path, probe) {
        None => None,
        Some((label, command, args, cwd)) => {
            assert(views(args@).last() == args@[args@.len() - 1]@);
            let visible_label = "python -m pytest -v ".to_string().concat(
                args[args.len() - 1].as_str(),
            );
            let no_args: Vec<String> = Vec::new();
            assert(views(no_args@) =~= seq![]);
            let visible = build_spawn_task(
                "wolfcode-test-visible",
                visible_label.as_str(),
                visible_label.as_str(),
                visible_label.clone(),
                no_args,
                cwd.clone(),
            );
            Some(TestStart { label, command, args, cwd, visible })
        },
    }
}

/// What the student is told where the tests could not be run.
pub fn test_not_run(error: &str) -> (toast: String)
    ensures
        toast@ == "Test failed: couldn't run pytest — "@ + error@,
{
    "Test failed: couldn't run pytest — ".to_string().concat(error)
}

/// The text that bytes stand for when each stretch that is no UTF-8 is
/// replaced, as `String::from_utf8_lossy` does it.
pub uninterp spec fn lossy_text(bytes: Seq<u8>) -> Seq<char>;

/// `String::from_utf8_lossy` gives the text that bytes encode, where they are
/// valid UTF-8. Nothing is said here of how the rest is replaced.
#[verifier::external_body]
fn text_from_lossy(bytes: &[u8]) -> (r: String)
    ensures
        r@ == lossy_text(bytes@),
        valid_utf8(bytes@) ==> r@ == decode_utf8(bytes@),
{
    String::from_utf8_lossy(bytes).into_owned()
}

/// The exit code of a program; minus one where it ended without one.
pub fn exit_code_of(code: Option<i32>) -> (r: i32)
    ensures
        match code {
            Some(code) => r == code,
            None => r == -1,
        },
{
    match code {
        Some(code) => code,
        None => -1,
    }
}

/// How a test run went.
pub enum Verdict {
    /// Nothing was counted.
    NoSummary,
    /// Every test passed.
    AllPassed,
    /// Some test failed.
    SomeFailed,
}

/// What follows a test run.
pub struct FollowUp {
    /// Whether the run that failed before is forgotten.
    pub forget: bool,
    /// Whether the marks of the lessons are fetched anew.
    pub refresh: bool,
    /// Whether this run is kept for the tutor.
    pub keep: bool,
    /// Whether the tutor is asked to explain it.
    pub explain: bool,
}

/// What follows a test run: where every test passed, a failure from before is
/// forgotten and the marks of the lessons are fetched anew; where some test
/// failed, the run is kept and the tutor explains it.
pub open spec fn followed_by(verdict: Verdict) -> FollowUp {
    FollowUp {
        forget: verdict is AllPassed,
        refresh: verdict is AllPassed,
        keep: verdict is SomeFailed,
        explain: verdict is SomeFailed,
    }
}

/// What follows a test run.
pub fn follow_up(verdict: &Verdict) -> (r: FollowUp)
    ensures
        r == followed_by(*verdict),
{
    match verdict {
        Verdict::NoSummary => FollowUp {
            forget: false,
            refresh: false,
            keep: false,
            explain: false,
        },
        Verdict::AllPassed => FollowUp { forget: true, refresh: true, keep: false, explain: false },
        Verdict::SomeFailed => FollowUp {
            forget: false,
            refresh: false,
            keep: true,
            explain: true,
        },
    }
}

/// The outcome of a test run.
pub struct TestOutcome {
    pub counts: TestCounts,
    pub verdict: Verdict,
    pub toast: String,
}

/// The ending of a word that counts so many.
pub open spec fn plural(n: int) -> Seq<char> {
    if n == 1 {
        ""@
    } else {
        "s"@
    }
}

/// What the student is told of a test run.
pub open spec fn test_toast(passed: int, failed: int, exit_code: int) -> Seq<char> {
    if passed + failed == 0 {
        "Test ran (exit "@ + signed_decimal(exit_code)
            + ") but no pass/fail summary found. Check the file pattern."@
    } else if failed == 0 {
        "✓ All "@ + decimal(passed as nat) + " test"@ + plural(passed) + " passed!"@
    } else {
        "✗ "@ + decimal(failed as nat) + " failed / "@ + decimal(passed as nat) + " passed (of "@
            + decimal((passed + failed) as nat)
            + ") — click 💡 in Tutor for an explanation"@
    }
}

/// Whether `outcome` is what so many passed and failed tests come to.
pub open spec fn test_comes_to(
    passed: int,
    failed: int,
    exit_code: int,
    outcome: TestOutcome,
) -> bool {
    &&& outcome.counts.passed == passed
    &&& outcome.counts.failed == failed
    &&& outcome.counts.total == passed + failed
    &&& outcome.verdict is NoSummary <==> passed + failed == 0
    &&& outcome.verdict is AllPassed <==> passed > 0 && failed == 0
    &&& outcome.verdict is SomeFailed <==> failed > 0
    &&& outcome.toast@ == test_toast(passed, failed, exit_code)
}

/// What so many passed and failed tests come to.
fn outcome_of(passed: u32, failed: u32, exit_code: i32) -> (r: TestOutcome)
    requires
        passed + failed <= u32::MAX,
    ensures
        test_comes_to(passed as int, failed as int, exit_code as int, r),
{
    let total: u32 = passed + failed;
    let counts = TestCounts { passed, failed, total };
    if total == 0 {
        let mut toast = "Test ran (exit ".to_string();
        toast.append(signed_decimal_text(exit_code).as_str());
        toast.append(") but no pass/fail summary found. Check the file pattern.");
        TestOutcome { counts, verdict: Verdict::NoSummary, toast }
    } else if failed == 0 {
        let mut toast = "✓ All ".to_string();
        toast.append(decimal_text(passed as u128).as_str());
        toast.append(" test");
        toast.append(
            if passed == 1 {
                ""
            } else {
                "s"
            },
        );
        toast.append(" passed!");
        TestOutcome { counts, verdict: Verdict::AllPassed, toast }
    } else {
        let mut toast = "✗ ".to_string();
        toast.append(decimal_text(failed as u128).as_str());
        toast.append(" failed / ");
        toast.append(decimal_text(passed as u128).as_str());
        toast.append(" passed (of ");
        toast.append(decimal_text(total as u128).as_str());
        toast.append(") — click 💡 in Tutor for an explanation");
        TestOutcome { counts, verdict: Verdict::SomeFailed, toast }
    }
}

/// The outcome of a test run, by what pytest printed and its exit code.
pub fn test_outcome(stdout: &str, exit_code: i32) -> (r: TestOutcome)
    requires
        passed_tests(stdout@) + failed_tests(stdout@) <= u32::MAX,
    ensures
        test_comes_to(
            passed_tests(stdout@) as int,
            failed_tests(stdout@) as int,
            exit_code as int,
            r,
        ),
{
    let (passed, failed) = parse_pytest_summary(stdout);
    outcome_of(passed, failed, exit_code)
}

/// The outcome of a test run; nothing where pytest counts more tests than can
/// be reported.
pub fn countable_test_outcome(stdout: &str, exit_code: i32) -> (r: Option<TestOutcome>)
    ensures
        match r {
            Some(outcome) => test_comes_to(
                passed_tests(stdout@) as int,
                failed_tests(stdout@) as int,
                exit_code as int,
                outcome,
            ),
            None => passed_tests(stdout@) + failed_tests(stdout@) > u32::MAX,
        },
{
    let (passed, failed) = pytest_totals(stdout);
    if passed <= 0xffff_ffff && failed <= 0xffff_ffff && passed + failed <= 0xffff_ffff {
        Some(test_outcome(stdout, exit_code))
    } else {
        None
    }
}

/// A test run that came to its end.
pub struct FinishedTest {
    /// What pytest printed.
    pub stdout: String,
    pub exit_code: i32,
    /// What it came to; nothing where pytest counts more tests than can be
    /// reported.
    pub outcome: Option<TestOutcome>,
}

/// What a test run came to, by the bytes that pytest printed and the code it
/// ended with.
pub fn finish_test(stdout: &[u8], code: Option<i32>) -> (r: FinishedTest)
    ensures
        r.stdout@ == lossy_text(stdout@),
        valid_utf8(stdout@) ==> r.stdout@ == decode_utf8(stdout@),
        match code {
            Some(code) => r.exit_code == code,
            None => r.exit_code == -1,
        },
        match r.outcome {
            Some(outcome) => test_comes_to(
                passed_tests(r.stdout@) as int,
                failed_tests(r.stdout@) as int,
                r.exit_code as int,
                outcome,
            ),
            None => passed_tests(r.stdout@) + failed_tests(r.stdout@) > u32::MAX,
        },
{
    let stdout = text_from_lossy(stdout);
    let exit_code = exit_code_of(code);
    let outcome = countable_test_outcome(stdout.as_str(), exit_code);
    FinishedTest { stdout, exit_code, outcome }
}

/// A failed test run, kept for the tutor to explain.
pub struct TestRunSnapshot {
    pub lesson_id: String,
    pub student_code: String,
    pub student_filename: String,
    pub test_code: Option<String>,
    pub test_filename: Option<String>,
    pub test_output: String,
    pub exit_code: i32,
}

/// A text, or the empty one where there is none.
pub open spec fn text_or_empty(s: Option<Seq<char>>) -> Seq<char> {
    match s {
        Some(s) => s,
        None => seq![],
    }
}

/// A text, or the empty one where there is none.
pub fn or_empty(s: Option<String>) -> (r: String)
    ensures
        r@ == text_or_empty(opt_view(s)),
{
    match s {
        Some(s) => s,
        None => String::new(),
    }
}

/// Keeps a failed test run: the student's file and the test file by their
/// names, with what they hold as far as they could be read, and what pytest
/// printed.
pub fn take_snapshot(
    lesson_id: &str,
    student_name: Option<String>,
    student_code: Option<String>,
    test_name: Option<String>,
    test_code: Option<String>,
    stdout: &str,
    exit_code: i32,
) -> (r: TestRunSnapshot)
    ensures
        r.lesson_id@ == lesson_id@,
        r.student_code@ == text_or_empty(opt_view(student_code)),
        r.student_filename@ == text_or_empty(opt_view(student_name)),
        r.test_code == test_code,
        opt_view(r.test_filename) == Some(text_or_empty(opt_view(test_name))),
        r.test_output@ == stdout@,
        r.exit_code == exit_code,
{
    TestRunSnapshot {
        lesson_id: lesson_id.to_string(),
        student_code: or_empty(student_code),
        student_filename: or_empty(student_name),
        test_code,
        test_filename: Some(or_empty(test_name)),
        test_output: stdout.to_string(),
        exit_code,
    }
}

/// Reports a test run, with the code that was tested. The clock is read once
/// for the session and once for the event.
pub fn test_report(
    jwt: &str,
    session_ms: u128,
    clock_ms: u128,
    lesson_id: &str,
    course_id: &str,
    counts: &TestCounts,
    code: &Option<String>,
) -> (r: Request)
    ensures
        r@ == post_view(
            "/events/batch"@,
            jwt@,
            batch_tree(
                "test-"@ + decimal(session_ms as nat),
                seq![test_tree(clock_ms as u64, lesson_id@, course_id@, *counts, opt_view(*code))],
            ),
        ),
{
    let (session_id, events) = test_batch(
        session_ms,
        clock_ms,
        lesson_id,
        course_id,
        counts,
        code,
    );
    events_request(jwt, session_id.as_str(), events)
}

// ---------------------------------------------------------------------------
// Reporting, step by step
// ---------------------------------------------------------------------------

/// What is reported.
pub enum ReportSubject {
    /// A run of a command, with the code that was run.
    Run { command: String, code: Option<String> },
    /// A test run that went like this.
    Test { counts: TestCounts },
}

/// A report on a lesson.
pub struct Report {
    pub lesson_id: String,
    pub course_id: String,
    pub subject: ReportSubject,
}

/// How far reporting has come: what it waits for.
pub enum ReportState {
    /// The token.
    Credentials(Report),
    /// The time and the code; the token is there.
    Moment(Report, String),
    /// The answer to the report.
    Sent(Report, String),
    /// The log of pastes.
    Pastes(Report, String),
    /// The answer to the report of pastes.
    PastesSent,
    /// Nothing: all is done.
    Done,
}

/// What reporting waited for.
pub enum ReportEvent {
    Credentials(Credentials),
    /// The clock, read for the session and once more for the event, and what
    /// the student's file holds, where it was asked for and could be read.
    Moment { session_ms: u128, clock_ms: u128, code: Option<String> },
    /// What came of the report.
    Sent(Sent),
    /// The pastes that were logged, now taken off the log.
    Pastes(Vec<PasteRecord>),
    /// What came of the report of pastes.
    PastesSent(Sent),
}

/// What is to be done next.
pub enum ReportAction {
    ReadCredentials,
    /// Read the clock, and the student's file if need be.
    ReadMoment { with_code: bool },
    Send(Request),
    /// Take the pastes off the log.
    DrainPastes,
    SendPastes(Request),
    /// Nothing more. Reports are made as far as possible, and nobody is told.
    Finish,
}

/// Whether an event is the one that is waited for.
pub open spec fn report_awaited(state: ReportState, event: ReportEvent) -> bool {
    match state {
        ReportState::Credentials(_) => event is Credentials,
        ReportState::Moment(_, _) => event is Moment,
        ReportState::Sent(_, _) => event is Sent,
        ReportState::Pastes(_, _) => event is Pastes,
        ReportState::PastesSent => event is PastesSent,
        ReportState::Done => false,
    }
}

/// The request that makes a report at a moment.
pub open spec fn report_view(
    report: Report,
    jwt: Seq<char>,
    session_ms: u128,
    clock_ms: u128,
    code: Option<Seq<char>>,
) -> RequestView {
    let batch = match report.subject {
        ReportSubject::Run { command, code: run_code } => batch_tree(
            "run-"@ + decimal((clock_ms as u64) as nat),
            seq![
                run_tree(
                    clock_ms as u64,
                    report.lesson_id@,
                    report.course_id@,
                    command@,
                    opt_view(run_code),
                ),
            ],
        ),
        ReportSubject::Test { counts } => batch_tree(
            "test-"@ + decimal(session_ms as nat),
            seq![
                test_tree(clock_ms as u64, report.lesson_id@, report.course_id@, counts, code),
            ],
        ),
    };
    post_view("/events/batch"@, jwt, batch)
}

/// Whether `next` and `action` are what an event leads to.
pub open spec fn report_leads(
    state: ReportState,
    event: ReportEvent,
    next: ReportState,
    action: ReportAction,
) -> bool {
    match (state, event) {
        (ReportState::Credentials(report), ReportEvent::Credentials(credentials)) => match
        stored_token(credentials) {
            Some(token) => {
                &&& next matches ReportState::Moment(same, jwt) && same == report && jwt@ == token
                &&& action == (ReportAction::ReadMoment { with_code: report.subject is Test })
            },
            None => next is Done && action is Finish,
        },
        (
            ReportState::Moment(report, jwt),
            ReportEvent::Moment { session_ms, clock_ms, code },
        ) => {
            &&& next == ReportState::Sent(report, jwt)
            &&& action matches ReportAction::Send(request) && request@ == report_view(
                report,
                jwt@,
                session_ms,
                clock_ms,
                opt_view(code),
            )
        },
        (ReportState::Sent(report, jwt), ReportEvent::Sent(_)) => {
            &&& next == ReportState::Pastes(report, jwt)
            &&& action is DrainPastes
        },
        (ReportState::Pastes(report, jwt), ReportEvent::Pastes(records)) => if records@.len() == 0 {
            next is Done && action is Finish
        } else {
            &&& next is PastesSent
            &&& action matches ReportAction::SendPastes(request) && request@ == paste_view(
                records@,
                jwt@,
                report.lesson_id@,
                report.course_id@,
            )
        },
        (ReportState::PastesSent, ReportEvent::PastesSent(_)) => next is Done && action is Finish,
        _ => false,
    }
}

/// Starts reporting.
pub fn start_report(report: Report) -> (r: (ReportState, ReportAction))
    ensures
        r.0 == ReportState::Credentials(report),
        r.1 is ReadCredentials,
{
    (ReportState::Credentials(report), ReportAction::ReadCredentials)
}

/// The request that makes a report at a moment.
fn report_request(
    report: &Report,
    jwt: &str,
    session_ms: u128,
    clock_ms: u128,
    code: &Option<String>,
) -> (r: Request)
    ensures
        r@ == report_view(*report, jwt@, session_ms, clock_ms, opt_view(*code)),
{
    match &report.subject {
        ReportSubject::Run { command, code: run_code } => run_report(
            jwt,
            clock_ms,
            report.lesson_id.as_str(),
            report.course_id.as_str(),
            command.as_str(),
            run_code,
        ),
        ReportSubject::Test { counts } => test_report(
            jwt,
            session_ms,
            clock_ms,
            report.lesson_id.as_str(),
            report.course_id.as_str(),
            counts,
            code,
        ),
    }
}

/// Goes on with reporting when what it waits for has come.
pub fn report_step(state: ReportState, event: ReportEvent) -> (r: (ReportState, ReportAction))
    requires
        report_awaited(state, event),
    ensures
        report_leads(state, event, r.0, r.1),
{
    match (state, event) {
        (ReportState::Credentials(report), ReportEvent::Credentials(credentials)) => match
        report_token(credentials) {
            Some(jwt) => {
                let with_code = match &report.subject {
                    ReportSubject::Run { .. } => false,
                    ReportSubject::Test { .. } => true,
                };
                (ReportState::Moment(report, jwt), ReportAction::ReadMoment { with_code })
            },
            None => (ReportState::Done, ReportAction::Finish),
        },
        (
            ReportState::Moment(report, jwt),
            ReportEvent::Moment { session_ms, clock_ms, code },
        ) => {
            let request = report_request(&report, jwt.as_str(), session_ms, clock_ms, &code);
            (ReportState::Sent(report, jwt), ReportAction::Send(request))
        },
        (ReportState::Sent(report, jwt), ReportEvent::Sent(_)) => {
            (ReportState::Pastes(report, jwt), ReportAction::DrainPastes)
        },
        (ReportState::Pastes(report, jwt), ReportEvent::Pastes(records)) => match paste_request(
            &records,
            jwt.as_str(),
            report.lesson_id.as_str(),
            report.course_id.as_str(),
        ) {
            Some(request) => (ReportState::PastesSent, ReportAction::SendPastes(request)),
            None => (ReportState::Done, ReportAction::Finish),
        },
        (ReportState::PastesSent, ReportEvent::PastesSent(_)) => {
            (ReportState::Done, ReportAction::Finish)
        },
        // Nothing else is awaited.
        (state, _) => (state, ReportAction::Finish),
    }
}

// ---------------------------------------------------------------------------
// Laws
// ---------------------------------------------------------------------------

/// A run with nothing failed and something passed is the only one that is
/// celebrated, and a run with a failure is always explained: the verdicts
/// never overlap.
pub proof fn law_one_verdict(passed: int, failed: int, exit_code: int, outcome: TestOutcome)
    requires
        passed >= 0,
        failed >= 0,
        test_comes_to(passed, failed, exit_code, outcome),
    ensures
        failed > 0 <==> outcome.verdict is SomeFailed,
        outcome.verdict is AllPassed ==> outcome.counts.failed == 0 && outcome.counts.total
            == outcome.counts.passed,
{
}

/// What is shown in the terminal is run where the tests are run, and on the
/// same file.
pub proof fn law_shown_tests_are_run(start: TestStart, text: Seq<char>, probe: TestProbe)
    requires
        test_command(text, probe) is Some,
        tests(start, test_command(text, probe)->0),
    ensures
        start.visible.cwd@ == start.cwd@,
        start.args@.len() > 0,
        start.visible.command@ == "python -m pytest -v "@ + start.args@.last()@,
{
    assert(views(start.args@).len() == 3);
    assert(views(start.args@).last() == start.args@.last()@);
}

/// One way that reporting may go: the states it goes through, what came to
/// each of them, and what was done on reaching it.
pub open spec fn report_run(
    states: Seq<ReportState>,
    events: Seq<ReportEvent>,
    actions: Seq<ReportAction>,
) -> bool {
    &&& states.len() == events.len() + 1
    &&& actions.len() == states.len()
    &&& states[0] is Credentials
    &&& actions[0] is ReadCredentials
    &&& forall|i: int|
        0 <= i < events.len() ==> report_awaited(states[i], #[trigger] events[i]) && report_leads(
            states[i],
            events[i],
            states[i + 1],
            actions[i + 1],
        )
}

/// Where reporting is by its length, and with which token.
proof fn lemma_report_run(
    states: Seq<ReportState>,
    events: Seq<ReportEvent>,
    actions: Seq<ReportAction>,
    k: int,
)
    requires
        report_run(states, events, actions),
        0 <= k < states.len(),
    ensures
        states[k] is Credentials ==> k == 0,
        states[k] is Moment ==> k == 1,
        states[k] is Sent ==> k == 2 && actions[2] is Send,
        states[k] is Pastes ==> k == 3 && actions[2] is Send,
        states[k] is PastesSent ==> k == 4,
        k <= 5,
        states[k] is Done || k <= 4,
        states[k] is Done <==> actions[k] is Finish,
        (match states[k] {
            ReportState::Moment(_, jwt) => Some(jwt@),
            ReportState::Sent(_, jwt) => Some(jwt@),
            ReportState::Pastes(_, jwt) => Some(jwt@),
            _ => None,
        }) matches Some(jwt) ==> (events[0] matches ReportEvent::Credentials(credentials)
            && stored_token(credentials) == Some(jwt)),
    decreases k,
{
    if k > 0 {
        lemma_report_run(states, events, actions, k - 1);
        assert(report_awaited(states[k - 1], events[k - 1]));
        assert(report_leads(states[k - 1], events[k - 1], states[k], actions[k]));
    }
}

/// A run is kept for the tutor, and explained, exactly where a test failed. A
/// failure from before is forgotten, and the marks fetched anew, exactly where
/// tests passed and none failed.
pub proof fn law_failures_are_kept_until_all_pass(
    passed: int,
    failed: int,
    exit_code: int,
    outcome: TestOutcome,
)
    requires
        passed >= 0,
        failed >= 0,
        test_comes_to(passed, failed, exit_code, outcome),
    ensures
        ({
            let next = followed_by(outcome.verdict);
            &&& next.keep <==> failed > 0
            &&& next.explain <==> failed > 0
            &&& next.forget <==> passed > 0 && failed == 0
            &&& next.refresh <==> passed > 0 && failed == 0
        }),
{
}

/// The report goes out before the pastes are looked at, and whatever comes of
/// it the pastes are looked at too. Nothing goes out without the token that
/// the keychain has, and everything that goes out carries it.
pub proof fn law_report_then_pastes(
    states: Seq<ReportState>,
    events: Seq<ReportEvent>,
    actions: Seq<ReportAction>,
    k: int,
)
    requires
        report_run(states, events, actions),
        0 <= k < actions.len(),
    ensures
        actions[k] is Send ==> k == 2,
        actions[k] is DrainPastes ==> k == 3 && actions[2] is Send,
        actions[k] is Send && k + 1 < actions.len() ==> actions[k + 1] is DrainPastes,
        actions[k] is SendPastes ==> k == 4 && actions[3] is DrainPastes,
        (match actions[k] {
            ReportAction::Send(request) => Some(request@),
            ReportAction::SendPastes(request) => Some(request@),
            _ => None,
        }) matches Some(request) ==> (events[0] matches ReportEvent::Credentials(credentials) && (
        stored_token(credentials) matches Some(jwt) && request.headers[0] == bearer(jwt))),
{
    lemma_report_run(states, events, actions, k);
    if k > 0 {
        lemma_report_run(states, events, actions, k - 1);
        assert(report_awaited(states[k - 1], events[k - 1]));
        assert(report_leads(states[k - 1], events[k - 1], states[k], actions[k]));
    }
    if k + 1 < actions.len() {
        assert(report_awaited(states[k], events[k]));
        assert(report_leads(states[k], events[k], states[k + 1], actions[k + 1]));
    }
    if k == 4 {
        lemma_report_run(states, events, actions, 2);
        assert(report_awaited(states[2], events[2]));
        assert(report_leads(states[2], events[2], states[3], actions[3]));
    }
}

/// Reporting comes to an end after five events at most.
pub proof fn law_report_ends(
    states: Seq<ReportState>,
    events: Seq<ReportEvent>,
    actions: Seq<ReportAction>,
)
    requires
        report_run(states, events, actions),
    ensures
        events.len() <= 5,
        events.len() == 5 ==> states[5] is Done,
{
    lemma_report_run(states, events, actions, states.len() - 1);
}

/// The pastes are taken off the log once at most and reported once at most, and
/// where the log was empty nothing is reported.
pub proof fn law_report_sends_pastes_once(
    states: Seq<ReportState>,
    events: Seq<ReportEvent>,
    actions: Seq<ReportAction>,
    i: int,
    j: int,
)
    requires
        report_run(states, events, actions),
        0 <= i < actions.len(),
        0 <= j < actions.len(),
    ensures
        actions[i] is SendPastes && actions[j] is SendPastes ==> i == j,
        actions[i] is DrainPastes && actions[j] is DrainPastes ==> i == j,
        i < events.len() && (events[i] matches ReportEvent::Pastes(records) && records@.len() == 0)
            ==> !(actions[j] is SendPastes),
{
    law_report_then_pastes(states, events, actions, i);
    law_report_then_pastes(states, events, actions, j);
    if i < events.len() {
        lemma_report_run(states, events, actions, i);
        assert(report_awaited(states[i], events[i]));
    }
    if actions[j] is SendPastes {
        assert(report_awaited(states[j - 1], events[j - 1]));
        assert(report_leads(states[j - 1], events[j - 1], states[j], actions[j]));
    }
}

/// Once the pastes are reported they are forgotten: the state that follows is
/// the same whatever was pasted.
pub proof fn law_report_forgets_pastes(
    state: ReportState,
    records: Vec<PasteRecord>,
    others: Vec<PasteRecord>,
    next: ReportState,
    other_next: ReportState,
    action: ReportAction,
    other_action: ReportAction,
)
    requires
        report_leads(state, ReportEvent::Pastes(records), next, action),
        report_leads(state, ReportEvent::Pastes(others), other_next, other_action),
        action is SendPastes,
        other_action is SendPastes,
    ensures
        next == other_next,
{
}

/// A test run comes to its counts, and the student is told of it: that there is
/// no summary, that all tests passed, or how many failed and passed.
pub proof fn law_test_run_is_told(
    passed: int,
    failed: int,
    exit_code: int,
    outcome: TestOutcome,
)
    requires
        passed >= 0,
        failed >= 0,
        test_comes_to(passed, failed, exit_code, outcome),
    ensures
        outcome.counts.passed == passed,
        outcome.counts.failed == failed,
        outcome.counts.total == passed + failed,
        passed + failed == 0 ==> outcome.verdict is NoSummary && outcome.toast@
            == "Test ran (exit "@ + signed_decimal(exit_code)
            + ") but no pass/fail summary found. Check the file pattern."@,
        failed == 0 && passed == 1 ==> outcome.verdict is AllPassed && outcome.toast@ == "✓ All "@
            + decimal(1) + " test"@ + ""@ + " passed!"@,
        failed == 0 && passed > 1 ==> outcome.verdict is AllPassed && outcome.toast@ == "✓ All "@
            + decimal(passed as nat) + " test"@ + "s"@ + " passed!"@,
        failed > 0 ==> outcome.verdict is SomeFailed && outcome.toast@ == "✗ "@ + decimal(
            failed as nat,
        ) + " failed / "@ + decimal(passed as nat) + " passed (of "@ + decimal(
            (passed + failed) as nat,
        ) + ") — click 💡 in Tutor for an explanation"@,
{
}

/// A run is refused without a file, and for a file that is no Python file or
/// whose path has no name; it starts for any Python file where there is a
/// terminal. The task runs that very file in its own directory, in a terminal
/// that is shown and stays, and the student is told.
pub proof fn law_python_files_start(path: FilePath, has_terminal: bool, start: RunStart)
    ensures
        run_starts(None, has_terminal, start) ==> (start matches RunStart::Refused { toast } && toast@
            == "Open a Python lesson file before pressing Run."@),
        run_starts(Some(path), has_terminal, start) && (!".py"@.is_suffix_of(path.text@)
            || path.name is None || path.parent is None) ==> (start matches RunStart::Refused {
            toast,
        } && toast@ == "Can't Run this file: "@ + (match path.name {
            Some(name) => name@,
            None => seq![],
        })),
        run_starts(Some(path), has_terminal, start) && ".py"@.is_suffix_of(path.text@)
            && path.name is Some && path.parent is Some ==> {
            if has_terminal {
                start matches RunStart::Started { toast, task, label } && {
                    let line = "python "@ + path.name->0@;
                    &&& toast@ == "▶ Running "@ + line + " in terminal…"@
                    &&& label@ == line
                    &&& task.id@ == "wolfcode-run"@
                    &&& task.command@ == line
                    &&& task.args@.len() == 0
                    &&& task.full_label@ == line && task.label@ == line && task.command_label@
                        == line
                    &&& task.cwd@ == path.parent->0@
                    &&& task.use_new_terminal && task.allow_concurrent_runs
                    &&& task.show_summary && task.show_command && task.show_rerun
                }
            } else {
                start is NoTerminal
            }
        },
{
    if let RunStart::Started { toast, task, label } = start {
        assert(views(task.args@).len() == task.args@.len());
    }
}

/// Tests are run for a Python file exactly where its test file is there: by
/// `python -m pytest` and the name of the test file, in the directory of that
/// file. The student sees the same run, with more to read, in a terminal.
pub proof fn law_tests_are_run_by_pytest(text: Seq<char>, probe: TestProbe, start: TestStart)
    ensures
        test_command(text, probe) is Some <==> ".py"@.is_suffix_of(text) && probe.exists
            && probe.file.name is Some && probe.file.parent is Some,
        test_command(text, probe) is Some && tests(start, test_command(text, probe)->0) ==> {
            let name = probe.file.name->0@;
            let parent = probe.file.parent->0@;
            &&& start.command@ == "python"@
            &&& start.args@.len() == 3
            &&& start.args@[0]@ == "-m"@ && start.args@[1]@ == "pytest"@ && start.args@[2]@ == name
            &&& start.cwd@ == parent
            &&& start.label@ == "python -m pytest "@ + name
            &&& start.visible.id@ == "wolfcode-test-visible"@
            &&& start.visible.command@ == "python -m pytest -v "@ + name
            &&& start.visible.label@ == start.visible.command@
            &&& start.visible.full_label@ == start.visible.command@
            &&& start.visible.command_label@ == start.visible.command@
            &&& start.visible.args@.len() == 0
            &&& start.visible.cwd@ == parent
            &&& start.visible.use_new_terminal && start.visible.allow_concurrent_runs
            &&& start.visible.show_summary && start.visible.show_command
                && start.visible.show_rerun
        },
{
    reveal_strlit(".test.py");
    reveal_strlit(".py");
    if ".test.py"@.is_suffix_of(text) {
        let n = text.len() as int;
        assert(".test.py"@ == text.subrange(n - 8, n));
        assert(".test.py"@.subrange(5, 8) =~= ".py"@);
        assert(text.subrange(n - 3, n) =~= text.subrange(n - 8, n).subrange(5, 8));
    }
    if test_command(text, probe) is Some && tests(start, test_command(text, probe)->0) {
        let args = views(start.args@);
        assert(args.len() == 3);
        assert(args[0] == start.args@[0]@ && args[1] == start.args@[1]@);
        assert(args[2] == start.args@[2]@);
        assert(views(start.visible.args@).len() == start.visible.args@.len());
        assert(test_command(text, probe)->0.args.last() == probe.file.name->0@);
    }
}

/// A report needs a token that can be read; without one nothing is sent. With
/// one it goes on, and the student's file is read exactly for a test run.
pub proof fn law_report_needs_a_token(
    report: Report,
    error: String,
    bytes: Vec<u8>,
    next: ReportState,
    action: ReportAction,
)
    ensures
        report_leads(
            ReportState::Credentials(report),
            ReportEvent::Credentials(Credentials::Unreadable(error)),
            next,
            action,
        ) ==> next is Done && action is Finish,
        report_leads(
            ReportState::Credentials(report),
            ReportEvent::Credentials(Credentials::Absent),
            next,
            action,
        ) ==> next is Done && action is Finish,
        !valid_utf8(bytes@) && report_leads(
            ReportState::Credentials(report),
            ReportEvent::Credentials(Credentials::Stored(bytes)),
            next,
            action,
        ) ==> next is Done && action is Finish,
        valid_utf8(bytes@) && report_leads(
            ReportState::Credentials(report),
            ReportEvent::Credentials(Credentials::Stored(bytes)),
            next,
            action,
        ) ==> (next matches ReportState::Moment(same, jwt) && same == report && jwt@ == decode_utf8(
            bytes@,
        )) && (action matches ReportAction::ReadMoment { with_code } && (with_code
            <==> report.subject is Test)),
{
}

/// The report of a run goes to the gateway with the token, in a session named
/// after the time, and holds one event: the run of that command, with the code
/// that was run.
pub proof fn law_run_is_reported(
    report: Report,
    command: String,
    code: Option<String>,
    jwt: String,
    session_ms: u128,
    clock_ms: u128,
    other_code: Option<String>,
    next: ReportState,
    action: ReportAction,
    event: JsonTree,
)
    requires
        report.subject == (ReportSubject::Run { command, code }),
        report_leads(
            ReportState::Moment(report, jwt),
            ReportEvent::Moment { session_ms, clock_ms, code: other_code },
            next,
            action,
        ),
        event == run_tree(
            clock_ms as u64,
            report.lesson_id@,
            report.course_id@,
            command@,
            opt_view(code),
        ),
    ensures
        next == ReportState::Sent(report, jwt),
        action matches ReportAction::Send(request) && {
            &&& request@.method == Method::Post
            &&& request@.url == "https://wolfcode-bff.quake0day.workers.dev/events/batch"@
            &&& request@.headers == seq![
                ("Authorization"@, "Bearer "@ + jwt@),
                ("Content-Type"@, "application/json"@),
            ]
            &&& request@.body == Some(
                json_text(
                    JsonTree::Object(
                        seq![
                            (
                                "session_id"@,
                                JsonTree::Text("run-"@ + decimal((clock_ms as u64) as nat)),
                            ),
                            ("events"@, JsonTree::Array(seq![event])),
                        ],
                    ),
                ),
            )
        },
{
    lemma_batch_url();
}

/// The report of a test run goes to the gateway with the token, in a session
/// named after the time, and holds one event: the test run with these counts,
/// and the code that was tested.
pub proof fn law_test_run_is_reported(
    report: Report,
    counts: TestCounts,
    jwt: String,
    session_ms: u128,
    clock_ms: u128,
    code: Option<String>,
    next: ReportState,
    action: ReportAction,
    event: JsonTree,
)
    requires
        report.subject == (ReportSubject::Test { counts }),
        report_leads(
            ReportState::Moment(report, jwt),
            ReportEvent::Moment { session_ms, clock_ms, code },
            next,
            action,
        ),
        event == test_tree(
            clock_ms as u64,
            report.lesson_id@,
            report.course_id@,
            counts,
            opt_view(code),
        ),
    ensures
        next == ReportState::Sent(report, jwt),
        action matches ReportAction::Send(request) && {
            &&& request@.method == Method::Post
            &&& request@.url == "https://wolfcode-bff.quake0day.workers.dev/events/batch"@
            &&& request@.headers == seq![
                ("Authorization"@, "Bearer "@ + jwt@),
                ("Content-Type"@, "application/json"@),
            ]
            &&& request@.body == Some(
                json_text(
                    JsonTree::Object(
                        seq![
                            (
                                "session_id"@,
                                JsonTree::Text("test-"@ + decimal(session_ms as nat)),
                            ),
                            ("events"@, JsonTree::Array(seq![event])),
                        ],
                    ),
                ),
            )
        },
{
    lemma_batch_url();
}

/// Where events are reported.
proof fn lemma_batch_url()
    ensures
        BFF_URL@ + "/events/batch"@
            == "https://wolfcode-bff.quake0day.workers.dev/events/batch"@,
{
    reveal_strlit("https://wolfcode-bff.quake0day.workers.dev");
    reveal_strlit("/events/batch");
    reveal_strlit("https://wolfcode-bff.quake0day.workers.dev/events/batch");
    assert(BFF_URL@ + "/events/batch"@
        =~= "https://wolfcode-bff.quake0day.workers.dev/events/batch"@);
}

/// After a report, whatever came of it, the pastes are taken off the log. What
/// was on it is reported under the same lesson and course and with the same
/// token; where nothing was, all is done.
pub proof fn law_pastes_follow_the_report(
    report: Report,
    jwt: String,
    sent: Sent,
    records: Vec<PasteRecord>,
    next: ReportState,
    action: ReportAction,
)
    ensures
        report_leads(ReportState::Sent(report, jwt), ReportEvent::Sent(sent), next, action)
            ==> next == ReportState::Pastes(report, jwt) && action is DrainPastes,
        report_leads(ReportState::Pastes(report, jwt), ReportEvent::Pastes(records), next, action)
            && records@.len() == 0 ==> next is Done && action is Finish,
        report_leads(ReportState::Pastes(report, jwt), ReportEvent::Pastes(records), next, action)
            && records@.len() > 0 ==> next is PastesSent && (
        action matches ReportAction::SendPastes(request) && flush_view(
            records@,
            jwt@,
            report.lesson_id@,
            report.course_id@,
        ) == Some(request@)),
        report_leads(ReportState::PastesSent, ReportEvent::PastesSent(sent), next, action)
            ==> next is Done && action is Finish,
{
}

/// What is kept of a text that could not be read is nothing, and of any other
/// all of it.
pub proof fn law_unread_text_is_empty(s: Seq<char>)
    ensures
        text_or_empty(Some(s)) == s,
        text_or_empty(None).len() == 0,
{
}

/// What follows a summary follows from the numbers on its last line alone: where
/// pytest counts no failed and no broken tests and some that passed, whatever
/// else it counts, all is well; where it counts any, the run is kept and
/// explained.
pub proof fn law_verdict_follows_the_summary(
    before: Seq<char>,
    parts: Seq<(u32, Seq<char>)>,
    tail: Seq<char>,
    end: Seq<char>,
    exit_code: int,
    outcome: TestOutcome,
)
    requires
        before.len() == 0 || before.last() == '\n',
        parts.len() > 0,
        forall|i: int| 0 <= i < parts.len() ==> is_thing((#[trigger] parts[i]).1),
        forall|i: int|
            0 <= i < words(tail).len() ==> !counting_words().contains(#[trigger] words(tail)[i]),
        forall|i: int| 0 <= i < tail.len() ==> #[trigger] tail[i] != '\n',
        ends_line(end),
        ({
            let stdout = before + summary_of(parts, tail) + end;
            test_comes_to(
                passed_tests(stdout) as int,
                failed_tests(stdout) as int,
                exit_code,
                outcome,
            )
        }),
    ensures
        outcome.counts.passed == total_of(parts, seq!["passed"@]),
        outcome.counts.failed == total_of(parts, seq!["failed"@, "error"@, "errors"@]),
        outcome.counts.total == outcome.counts.passed + outcome.counts.failed,
        followed_by(outcome.verdict).keep <==> total_of(
            parts,
            seq!["failed"@, "error"@, "errors"@],
        ) > 0,
        followed_by(outcome.verdict).refresh <==> total_of(
            parts,
            seq!["failed"@, "error"@, "errors"@],
        ) == 0 && total_of(parts, seq!["passed"@]) > 0,
{
    law_only_failures_count_as_failed(before, seq!['='], parts, tail, seq!['='], end);
}

/// Reporting waits for the token, the moment, the answer, the pastes and the
/// answer to these, in turn, and for nothing when it is done.
pub proof fn law_report_waits_in_turn(report: Report, jwt: String, event: ReportEvent)
    ensures
        report_awaited(ReportState::Credentials(report), event) <==> event is Credentials,
        report_awaited(ReportState::Moment(report, jwt), event) <==> event is Moment,
        report_awaited(ReportState::Sent(report, jwt), event) <==> event is Sent,
        report_awaited(ReportState::Pastes(report, jwt), event) <==> event is Pastes,
        report_awaited(ReportState::PastesSent, event) <==> event is PastesSent,
        !report_awaited(ReportState::Done, event),
{
}

} // verus!
