//! The events that are reported to the teacher's dashboard, and the bodies of
//! the requests that carry them.

use crate::json::{
    json_text, lemma_member_at, lemma_member_trees, lemma_trees, member, member_trees,
    names_differ, render, tidy, trees, Json, JsonTree,
};
use crate::text::{decimal, decimal_text, opt_view};
use vstd::prelude::*;

verus! {

// ---------------------------------------------------------------------------
// What an event is
// ---------------------------------------------------------------------------

/// A number in JSON.
pub open spec fn number(n: int) -> JsonTree {
    JsonTree::Number(decimal(n as nat))
}

/// A text in JSON, or null where there is none.
pub open spec fn text_or_null(s: Option<Seq<char>>) -> JsonTree {
    match s {
        Some(s) => JsonTree::Text(s),
        None => JsonTree::Null,
    }
}

/// An event: when, what kind, in which lesson of which course, on which
/// knowledge components, and the details that its kind calls for.
pub open spec fn event_tree(
    ts: u64,
    kind: Seq<char>,
    lesson_id: Seq<char>,
    course_id: Seq<char>,
    kc: Seq<JsonTree>,
    details: Seq<(Seq<char>, JsonTree)>,
) -> JsonTree {
    JsonTree::Object(
        seq![
            ("ts"@, number(ts as int)),
            ("type"@, JsonTree::Text(kind)),
            ("lesson_id"@, JsonTree::Text(lesson_id)),
            ("course_id"@, JsonTree::Text(course_id)),
            ("kc"@, JsonTree::Array(kc)),
            ("details"@, JsonTree::Object(details)),
        ],
    )
}

/// The names of an event's members all differ.
proof fn lemma_event_tidy(tree: JsonTree)
    requires
        tree matches JsonTree::Object(list) && {
            &&& list.len() == 6
            &&& list[0].0 == "ts"@ && list[1].0 == "type"@ && list[2].0 == "lesson_id"@
            &&& list[3].0 == "course_id"@ && list[4].0 == "kc"@ && list[5].0 == "details"@
            &&& forall|i: int| 0 <= i < 6 ==> tidy((#[trigger] list[i]).1)
        },
    ensures
        tidy(tree),
{
    reveal_strlit("ts");
    reveal_strlit("type");
    reveal_strlit("lesson_id");
    reveal_strlit("course_id");
    reveal_strlit("kc");
    reveal_strlit("details");
    let list = tree->Object_0;
    assert(list[0].0.len() == 2 && list[0].0[0] == 't');
    assert(list[1].0.len() == 4);
    assert(list[2].0.len() == 9 && list[2].0[0] == 'l');
    assert(list[3].0.len() == 9 && list[3].0[0] == 'c');
    assert(list[4].0.len() == 2 && list[4].0[0] == 'k');
    assert(list[5].0.len() == 7);
    assert(names_differ(list));
}

/// An object without objects or arrays in it is tidy where the names of its
/// members differ.
proof fn lemma_flat_tidy(list: Seq<(Seq<char>, JsonTree)>)
    requires
        names_differ(list),
        forall|i: int|
            0 <= i < list.len() ==> !((#[trigger] list[i]).1 is Array) && !(list[i].1 is Object),
    ensures
        tidy(JsonTree::Object(list)),
{
    assert forall|i: int| 0 <= i < list.len() implies tidy((#[trigger] list[i]).1) by {
        assert(!(list[i].1 is Array) && !(list[i].1 is Object));
    }
}

/// An event, given its parts.
fn event(
    ts: u64,
    kind: &str,
    lesson_id: &str,
    course_id: &str,
    kc: Vec<Json>,
    details: Vec<(String, Json)>,
) -> (r: Json)
    requires
        forall|i: int| 0 <= i < kc@.len() ==> tidy(#[trigger] trees(kc@)[i]),
        tidy(JsonTree::Object(member_trees(details@))),
    ensures
        r.tree() == event_tree(
            ts,
            kind@,
            lesson_id@,
            course_id@,
            trees(kc@),
            member_trees(details@),
        ),
        tidy(r.tree()),
{
    let mut list: Vec<(String, Json)> = Vec::new();
    list.push(("ts".to_string(), Json::Number(ts)));
    list.push(("type".to_string(), Json::Text(kind.to_string())));
    list.push(("lesson_id".to_string(), Json::Text(lesson_id.to_string())));
    list.push(("course_id".to_string(), Json::Text(course_id.to_string())));
    let kc = Json::Array(kc);
    let details = Json::Object(details);
    assert(tidy(kc.tree())) by {
        lemma_trees(kc->Array_0@);
    }
    list.push(("kc".to_string(), kc));
    list.push(("details".to_string(), details));
    let r = Json::Object(list);
    proof {
        lemma_member_trees(list@);
        let tree = event_tree(ts, kind@, lesson_id@, course_id@, kc.tree()->Array_0, details.tree()->Object_0);
        assert(member_trees(list@) =~= tree->Object_0);
        lemma_event_tidy(tree);
    }
    r
}

/// A text in JSON, or null where there is none.
fn json_text_or_null(s: &Option<String>) -> (r: Json)
    ensures
        r.tree() == text_or_null(opt_view(*s)),
        tidy(r.tree()),
{
    match s {
        Some(s) => Json::Text(s.clone()),
        None => Json::Null,
    }
}

// ---------------------------------------------------------------------------
// Kinds of events
// ---------------------------------------------------------------------------

/// One paste into the editor.
pub struct PasteRecord {
    pub ts_ms: u128,
    pub bytes: usize,
    pub lines: usize,
    pub was_blocked: bool,
}

/// The event of one paste.
pub open spec fn paste_tree(
    record: PasteRecord,
    lesson_id: Seq<char>,
    course_id: Seq<char>,
) -> JsonTree {
    event_tree(
        record.ts_ms as u64,
        "paste"@,
        lesson_id,
        course_id,
        seq![],
        seq![
            ("bytes"@, number(record.bytes as int)),
            ("lines"@, number(record.lines as int)),
            ("blocked"@, JsonTree::Bool(record.was_blocked)),
        ],
    )
}

/// The event of one paste.
pub fn paste_event(record: &PasteRecord, lesson_id: &str, course_id: &str) -> (r: Json)
    ensures
        r.tree() == paste_tree(*record, lesson_id@, course_id@),
        tidy(r.tree()),
{
    let mut details: Vec<(String, Json)> = Vec::new();
    details.push(("bytes".to_string(), Json::Number(record.bytes as u64)));
    details.push(("lines".to_string(), Json::Number(record.lines as u64)));
    details.push(("blocked".to_string(), Json::Bool(record.was_blocked)));
    let kc: Vec<Json> = Vec::new();
    proof {
        lemma_member_trees(details@);
        let names = member_trees(details@);
        assert(names =~= paste_tree(*record, lesson_id@, course_id@)->Object_0[5].1->Object_0);
        reveal_strlit("bytes");
        reveal_strlit("lines");
        reveal_strlit("blocked");
        assert(names[0].0.len() == 5 && names[0].0[0] == 'b');
        assert(names[1].0.len() == 5 && names[1].0[0] == 'l');
        assert(names[2].0.len() == 7);
        lemma_flat_tidy(names);
        assert(trees(kc@) =~= seq![]);
    }
    event(record.ts_ms as u64, "paste", lesson_id, course_id, kc, details)
}

/// The event of one run.
pub open spec fn run_tree(
    now: u64,
    lesson_id: Seq<char>,
    course_id: Seq<char>,
    command: Seq<char>,
    code: Option<Seq<char>>,
) -> JsonTree {
    event_tree(
        now,
        "run"@,
        lesson_id,
        course_id,
        seq![],
        seq![("command"@, JsonTree::Text(command)), ("code"@, text_or_null(code))],
    )
}

/// The event of one run, with the code that was run.
pub fn run_event(
    now: u64,
    lesson_id: &str,
    course_id: &str,
    command: &str,
    code: &Option<String>,
) -> (r: Json)
    ensures
        r.tree() == run_tree(now, lesson_id@, course_id@, command@, opt_view(*code)),
        tidy(r.tree()),
{
    let mut details: Vec<(String, Json)> = Vec::new();
    details.push(("command".to_string(), Json::Text(command.to_string())));
    details.push(("code".to_string(), json_text_or_null(code)));
    let kc: Vec<Json> = Vec::new();
    proof {
        lemma_member_trees(details@);
        let names = member_trees(details@);
        let tree = run_tree(now, lesson_id@, course_id@, command@, opt_view(*code));
        assert(names =~= tree->Object_0[5].1->Object_0);
        reveal_strlit("command");
        reveal_strlit("code");
        assert(names[0].0.len() == 7);
        assert(names[1].0.len() == 4);
        lemma_flat_tidy(names);
        assert(trees(kc@) =~= seq![]);
    }
    event(now, "run", lesson_id, course_id, kc, details)
}

/// How a test run went.
pub struct TestCounts {
    pub passed: u32,
    pub failed: u32,
    pub total: u32,
}

/// The event of one test run.
pub open spec fn test_tree(
    now: u64,
    lesson_id: Seq<char>,
    course_id: Seq<char>,
    counts: TestCounts,
    code: Option<Seq<char>>,
) -> JsonTree {
    event_tree(
        now,
        "test"@,
        lesson_id,
        course_id,
        seq![],
        seq![
            ("command"@, JsonTree::Text("pytest"@)),
            ("passed"@, number(counts.passed as int)),
            ("failed"@, number(counts.failed as int)),
            ("total"@, number(counts.total as int)),
            ("code"@, text_or_null(code)),
        ],
    )
}

/// The event of one test run, with the code that was tested.
pub fn test_event(
    now: u64,
    lesson_id: &str,
    course_id: &str,
    counts: &TestCounts,
    code: &Option<String>,
) -> (r: Json)
    ensures
        r.tree() == test_tree(now, lesson_id@, course_id@, *counts, opt_view(*code)),
        tidy(r.tree()),
{
    let mut details: Vec<(String, Json)> = Vec::new();
    details.push(("command".to_string(), Json::Text("pytest".to_string())));
    details.push(("passed".to_string(), Json::Number(counts.passed as u64)));
    details.push(("failed".to_string(), Json::Number(counts.failed as u64)));
    details.push(("total".to_string(), Json::Number(counts.total as u64)));
    details.push(("code".to_string(), json_text_or_null(code)));
    let kc: Vec<Json> = Vec::new();
    proof {
        lemma_member_trees(details@);
        let names = member_trees(details@);
        let tree = test_tree(now, lesson_id@, course_id@, *counts, opt_view(*code));
        assert(names =~= tree->Object_0[5].1->Object_0);
        reveal_strlit("command");
        reveal_strlit("passed");
        reveal_strlit("failed");
        reveal_strlit("total");
        reveal_strlit("code");
        assert(names[0].0.len() == 7);
        assert(names[1].0.len() == 6 && names[1].0[0] == 'p');
        assert(names[2].0.len() == 6 && names[2].0[0] == 'f');
        assert(names[3].0.len() == 5);
        assert(names[4].0.len() == 4);
        lemma_flat_tidy(names);
        assert(trees(kc@) =~= seq![]);
    }
    event(now, "test", lesson_id, course_id, kc, details)
}

// ---------------------------------------------------------------------------
// A batch that shows the whole way works
// ---------------------------------------------------------------------------

/// The lesson that the sample events speak of.
pub open spec fn sample_lesson() -> Seq<char> {
    "csc141-01-first-variable"@
}

/// The course that the sample events speak of.
pub open spec fn sample_course() -> Seq<char> {
    "csc141-fall2026"@
}

/// A sample event of that kind.
pub open spec fn sample_tree(
    ts: int,
    kind: Seq<char>,
    details: Seq<(Seq<char>, JsonTree)>,
) -> JsonTree {
    event_tree(
        ts as u64,
        kind,
        sample_lesson(),
        sample_course(),
        seq![JsonTree::Text("python-variables"@)],
        details,
    )
}

/// The details of the sample edit.
pub open spec fn sample_edit() -> Seq<(Seq<char>, JsonTree)> {
    seq![("added_chars"@, number(12)), ("deleted_chars"@, number(0))]
}

/// The details of the sample run.
pub open spec fn sample_run() -> Seq<(Seq<char>, JsonTree)> {
    seq![("command"@, JsonTree::Text("python 01-first-variable.py"@))]
}

/// The details of the sample test run.
pub open spec fn sample_test() -> Seq<(Seq<char>, JsonTree)> {
    seq![
        ("command"@, JsonTree::Text("pytest"@)),
        ("passed"@, number(2)),
        ("failed"@, number(0)),
        ("total"@, number(2)),
    ]
}

/// The details of the sample hint.
pub open spec fn sample_hint() -> Seq<(Seq<char>, JsonTree)> {
    seq![("level"@, JsonTree::Text("L1"@)), ("length"@, number(132))]
}

/// The sample batch: an edit, a run, a test run and a hint, a tenth of a
/// second apart.
pub open spec fn sample_trees(now: u64) -> Seq<JsonTree> {
    seq![
        sample_tree(now as int, "edit"@, sample_edit()),
        sample_tree(now + 100, "run"@, sample_run()),
        sample_tree(now + 200, "test"@, sample_test()),
        sample_tree(now + 300, "hint"@, sample_hint()),
    ]
}

/// A sample event, given its details.
fn sample_event(ts: u64, kind: &str, details: Vec<(String, Json)>) -> (r: Json)
    requires
        tidy(JsonTree::Object(member_trees(details@))),
    ensures
        r.tree() == sample_tree(ts as int, kind@, member_trees(details@)),
        tidy(r.tree()),
{
    let mut kc: Vec<Json> = Vec::new();
    kc.push(Json::Text("python-variables".to_string()));
    proof {
        lemma_trees(kc@);
        assert(trees(kc@) =~= seq![JsonTree::Text("python-variables"@)]);
    }
    event(ts, kind, "csc141-01-first-variable", "csc141-fall2026", kc, details)
}

/// The sample edit.
fn sample_edit_event(ts: u64) -> (r: Json)
    ensures
        r.tree() == sample_tree(ts as int, "edit"@, sample_edit()),
        tidy(r.tree()),
{
    let mut details: Vec<(String, Json)> = Vec::new();
    details.push(("added_chars".to_string(), Json::Number(12)));
    details.push(("deleted_chars".to_string(), Json::Number(0)));
    proof {
        lemma_member_trees(details@);
        let names = member_trees(details@);
        assert(names =~= sample_edit());
        reveal_strlit("added_chars");
        reveal_strlit("deleted_chars");
        assert(names[0].0.len() == 11);
        assert(names[1].0.len() == 13);
        lemma_flat_tidy(names);
    }
    sample_event(ts, "edit", details)
}

/// The sample run.
fn sample_run_event(ts: u64) -> (r: Json)
    ensures
        r.tree() == sample_tree(ts as int, "run"@, sample_run()),
        tidy(r.tree()),
{
    let mut details: Vec<(String, Json)> = Vec::new();
    details.push(("command".to_string(), Json::Text("python 01-first-variable.py".to_string())));
    proof {
        lemma_member_trees(details@);
        assert(member_trees(details@) =~= sample_run());
        lemma_flat_tidy(member_trees(details@));
    }
    sample_event(ts, "run", details)
}

/// The sample test run.
fn sample_test_event(ts: u64) -> (r: Json)
    ensures
        r.tree() == sample_tree(ts as int, "test"@, sample_test()),
        tidy(r.tree()),
{
    let mut details: Vec<(String, Json)> = Vec::new();
    details.push(("command".to_string(), Json::Text("pytest".to_string())));
    details.push(("passed".to_string(), Json::Number(2)));
    details.push(("failed".to_string(), Json::Number(0)));
    details.push(("total".to_string(), Json::Number(2)));
    proof {
        lemma_member_trees(details@);
        let names = member_trees(details@);
        assert(names =~= sample_test());
        reveal_strlit("command");
        reveal_strlit("passed");
        reveal_strlit("failed");
        reveal_strlit("total");
        assert(names[0].0.len() == 7);
        assert(names[1].0.len() == 6 && names[1].0[0] == 'p');
        assert(names[2].0.len() == 6 && names[2].0[0] == 'f');
        assert(names[3].0.len() == 5);
        lemma_flat_tidy(names);
    }
    sample_event(ts, "test", details)
}

/// The sample hint.
fn sample_hint_event(ts: u64) -> (r: Json)
    ensures
        r.tree() == sample_tree(ts as int, "hint"@, sample_hint()),
        tidy(r.tree()),
{
    let mut details: Vec<(String, Json)> = Vec::new();
    details.push(("level".to_string(), Json::Text("L1".to_string())));
    details.push(("length".to_string(), Json::Number(132)));
    proof {
        lemma_member_trees(details@);
        let names = member_trees(details@);
        assert(names =~= sample_hint());
        reveal_strlit("level");
        reveal_strlit("length");
        assert(names[0].0.len() == 5);
        assert(names[1].0.len() == 6);
        lemma_flat_tidy(names);
    }
    sample_event(ts, "hint", details)
}

/// Whether every value of a list is tidy.
pub open spec fn all_tidy(list: Seq<JsonTree>) -> bool {
    forall|i: int| 0 <= i < list.len() ==> tidy(#[trigger] list[i])
}

/// The sample batch, as of that time on the clock, in milliseconds.
pub fn sample_events(clock_ms: u128) -> (r: Vec<Json>)
    requires
        (clock_ms as u64) + 300 <= u64::MAX,
    ensures
        trees(r@) == sample_trees(clock_ms as u64),
        all_tidy(trees(r@)),
{
    let now: u64 = clock_ms as u64;
    let mut r: Vec<Json> = Vec::new();
    r.push(sample_edit_event(now));
    r.push(sample_run_event(now + 100));
    r.push(sample_test_event(now + 200));
    r.push(sample_hint_event(now + 300));
    proof {
        lemma_trees(r@);
        assert(trees(r@) =~= sample_trees(now));
    }
    r
}

/// The events of a list of pastes.
pub open spec fn paste_trees(
    records: Seq<PasteRecord>,
    lesson_id: Seq<char>,
    course_id: Seq<char>,
) -> Seq<JsonTree> {
    Seq::new(records.len(), |i: int| paste_tree(records[i], lesson_id, course_id))
}

/// The batch that reports pastes: a session named after the first of them, and
/// one event for each. There is none where nothing was pasted.
pub fn paste_batch(records: &Vec<PasteRecord>, lesson_id: &str, course_id: &str) -> (r: Option<
    (String, Vec<Json>),
>)
    ensures
        r is None <==> records@.len() == 0,
        r matches Some((session_id, events)) ==> {
            &&& session_id@ == "paste-"@ + decimal(records@[0].ts_ms as nat)
            &&& trees(events@) == paste_trees(records@, lesson_id@, course_id@)
            &&& all_tidy(trees(events@))
        },
{
    if records.len() == 0 {
        return None;
    }
    let mut events: Vec<Json> = Vec::new();
    for i in 0..records.len()
        invariant
            events@.len() == i,
            forall|k: int|
                0 <= k < i ==> (#[trigger] events@[k]).tree() == paste_tree(
                    records@[k],
                    lesson_id@,
                    course_id@,
                ) && tidy(events@[k].tree()),
    {
        events.push(paste_event(&records[i], lesson_id, course_id));
    }
    proof {
        lemma_trees(events@);
        assert(trees(events@) =~= paste_trees(records@, lesson_id@, course_id@));
        assert forall|i: int| 0 <= i < trees(events@).len() implies tidy(
            #[trigger] trees(events@)[i],
        ) by {
            assert(trees(events@)[i] == events@[i].tree());
        }
    }
    let session_id = "paste-".to_string().concat(decimal_text(records[0].ts_ms).as_str());
    Some((session_id, events))
}

/// The session and the events that report a run, by the time on the clock.
pub fn run_batch(
    clock_ms: u128,
    lesson_id: &str,
    course_id: &str,
    command: &str,
    code: &Option<String>,
) -> (r: (String, Vec<Json>))
    ensures
        r.0@ == "run-"@ + decimal((clock_ms as u64) as nat),
        trees(r.1@) == seq![
            run_tree(clock_ms as u64, lesson_id@, course_id@, command@, opt_view(*code)),
        ],
        all_tidy(trees(r.1@)),
{
    let now: u64 = clock_ms as u64;
    let mut events: Vec<Json> = Vec::new();
    events.push(run_event(now, lesson_id, course_id, command, code));
    proof {
        lemma_trees(events@);
        assert(trees(events@) =~= seq![
            run_tree(now, lesson_id@, course_id@, command@, opt_view(*code)),
        ]);
    }
    ("run-".to_string().concat(decimal_text(now as u128).as_str()), events)
}

/// The session and the events that report a test run. The clock is read once
/// for the session and once for the event.
pub fn test_batch(
    session_ms: u128,
    clock_ms: u128,
    lesson_id: &str,
    course_id: &str,
    counts: &TestCounts,
    code: &Option<String>,
) -> (r: (String, Vec<Json>))
    ensures
        r.0@ == "test-"@ + decimal(session_ms as nat),
        trees(r.1@) == seq![
            test_tree(clock_ms as u64, lesson_id@, course_id@, *counts, opt_view(*code)),
        ],
        all_tidy(trees(r.1@)),
{
    let now: u64 = clock_ms as u64;
    let mut events: Vec<Json> = Vec::new();
    events.push(test_event(now, lesson_id, course_id, counts, code));
    proof {
        lemma_trees(events@);
        assert(trees(events@) =~= seq![
            test_tree(now, lesson_id@, course_id@, *counts, opt_view(*code)),
        ]);
    }
    ("test-".to_string().concat(decimal_text(session_ms).as_str()), events)
}

// ---------------------------------------------------------------------------
// Bodies of requests
// ---------------------------------------------------------------------------

/// A batch of events.
pub open spec fn batch_tree(session_id: Seq<char>, events: Seq<JsonTree>) -> JsonTree {
    JsonTree::Object(
        seq![("session_id"@, JsonTree::Text(session_id)), ("events"@, JsonTree::Array(events))],
    )
}

/// The body that carries a batch of events.
pub fn batch_body(session_id: &str, events: Vec<Json>) -> (r: String)
    requires
        all_tidy(trees(events@)),
    ensures
        r@ == json_text(batch_tree(session_id@, trees(events@))),
{
    let ghost list = trees(events@);
    let mut members: Vec<(String, Json)> = Vec::new();
    let events = Json::Array(events);
    members.push(("session_id".to_string(), Json::Text(session_id.to_string())));
    members.push(("events".to_string(), events));
    let body = Json::Object(members);
    proof {
        lemma_member_trees(members@);
        let names = member_trees(members@);
        assert(names =~= batch_tree(session_id@, list)->Object_0);
        reveal_strlit("session_id");
        reveal_strlit("events");
        assert(names[0].0.len() == 10);
        assert(names[1].0.len() == 6);
        assert(names_differ(names));
        assert(tidy(JsonTree::Array(list)));
        assert(tidy(names[0].1) && tidy(names[1].1));
        assert(tidy(body.tree()));
    }
    render(&body)
}

/// A solution that is handed in.
pub open spec fn submission_tree(
    content: Seq<char>,
    course_id: Seq<char>,
    file_path: Seq<char>,
) -> JsonTree {
    JsonTree::Object(
        seq![
            ("content"@, JsonTree::Text(content)),
            ("course_id"@, JsonTree::Text(course_id)),
            ("file_path"@, JsonTree::Text(file_path)),
        ],
    )
}

/// The body that hands a solution in.
pub fn submission_body(content: &str, course_id: &str, file_path: &str) -> (r: String)
    ensures
        r@ == json_text(submission_tree(content@, course_id@, file_path@)),
{
    let mut members: Vec<(String, Json)> = Vec::new();
    members.push(("content".to_string(), Json::Text(content.to_string())));
    members.push(("course_id".to_string(), Json::Text(course_id.to_string())));
    members.push(("file_path".to_string(), Json::Text(file_path.to_string())));
    let body = Json::Object(members);
    proof {
        lemma_member_trees(members@);
        let names = member_trees(members@);
        assert(names =~= submission_tree(content@, course_id@, file_path@)->Object_0);
        reveal_strlit("content");
        reveal_strlit("course_id");
        reveal_strlit("file_path");
        assert(names[0].0.len() == 7);
        assert(names[1].0.len() == 9 && names[1].0[0] == 'c');
        assert(names[2].0.len() == 9 && names[2].0[0] == 'f');
        lemma_flat_tidy(names);
    }
    render(&body)
}

/// A question to the tutor. It never asks for the solution.
pub open spec fn question_tree(
    lesson_id: Seq<char>,
    level: Seq<char>,
    question: Seq<char>,
    code: Seq<char>,
) -> JsonTree {
    JsonTree::Object(
        seq![
            ("lesson_id"@, JsonTree::Text(lesson_id)),
            ("level"@, JsonTree::Text(level)),
            ("user_question"@, JsonTree::Text(question)),
            ("current_code"@, JsonTree::Text(code)),
            ("allow_solution"@, JsonTree::Bool(false)),
        ],
    )
}

/// The body that puts a question to the tutor.
pub fn question_body(lesson_id: &str, level: &str, question: &str, code: &str) -> (r: String)
    ensures
        r@ == json_text(question_tree(lesson_id@, level@, question@, code@)),
{
    let mut members: Vec<(String, Json)> = Vec::new();
    members.push(("lesson_id".to_string(), Json::Text(lesson_id.to_string())));
    members.push(("level".to_string(), Json::Text(level.to_string())));
    members.push(("user_question".to_string(), Json::Text(question.to_string())));
    members.push(("current_code".to_string(), Json::Text(code.to_string())));
    members.push(("allow_solution".to_string(), Json::Bool(false)));
    let body = Json::Object(members);
    proof {
        lemma_member_trees(members@);
        let names = member_trees(members@);
        assert(names =~= question_tree(lesson_id@, level@, question@, code@)->Object_0);
        reveal_strlit("lesson_id");
        reveal_strlit("level");
        reveal_strlit("user_question");
        reveal_strlit("current_code");
        reveal_strlit("allow_solution");
        assert(names[0].0.len() == 9);
        assert(names[1].0.len() == 5);
        assert(names[2].0.len() == 13);
        assert(names[3].0.len() == 12);
        assert(names[4].0.len() == 14);
        lemma_flat_tidy(names);
    }
    render(&body)
}

// ---------------------------------------------------------------------------
// Laws
// ---------------------------------------------------------------------------

/// The names of an event's members differ.
proof fn lemma_event_names(
    ts: u64,
    kind: Seq<char>,
    lesson_id: Seq<char>,
    course_id: Seq<char>,
    kc: Seq<JsonTree>,
    details: Seq<(Seq<char>, JsonTree)>,
)
    ensures
        ({
            let tree = event_tree(ts, kind, lesson_id, course_id, kc, details);
            &&& member(tree, "ts"@) == Some(JsonTree::Number(decimal(ts as nat)))
            &&& member(tree, "type"@) == Some(JsonTree::Text(kind))
            &&& member(tree, "lesson_id"@) == Some(JsonTree::Text(lesson_id))
            &&& member(tree, "course_id"@) == Some(JsonTree::Text(course_id))
            &&& member(tree, "kc"@) == Some(JsonTree::Array(kc))
            &&& member(tree, "details"@) == Some(JsonTree::Object(details))
        }),
{
    reveal_strlit("ts");
    reveal_strlit("type");
    reveal_strlit("lesson_id");
    reveal_strlit("course_id");
    reveal_strlit("kc");
    reveal_strlit("details");
    let list = event_tree(ts, kind, lesson_id, course_id, kc, details)->Object_0;
    assert(list[0].0.len() == 2 && list[0].0[0] == 't');
    assert(list[1].0.len() == 4);
    assert(list[2].0.len() == 9 && list[2].0[0] == 'l');
    assert(list[3].0.len() == 9 && list[3].0[0] == 'c');
    assert(list[4].0.len() == 2 && list[4].0[0] == 'k');
    assert(list[5].0.len() == 7);
    assert(names_differ(list));
    lemma_member_at(list, 0);
    lemma_member_at(list, 1);
    lemma_member_at(list, 2);
    lemma_member_at(list, 3);
    lemma_member_at(list, 4);
    lemma_member_at(list, 5);
}

/// The event of a test run tells when it was, the lesson and the course, how
/// many tests passed and failed and how many there were, and the code that was
/// tested. Whatever the counts, the code is told as it is where it could be
/// read, and is null only where it could not.
pub proof fn law_test_event_tells_all(
    now: u64,
    lesson_id: Seq<char>,
    course_id: Seq<char>,
    counts: TestCounts,
    code: Seq<char>,
)
    ensures
        ({
            let read = test_tree(now, lesson_id, course_id, counts, Some(code));
            let unread = test_tree(now, lesson_id, course_id, counts, None);
            &&& member(read, "type"@) == Some(JsonTree::Text("test"@))
            &&& member(read, "ts"@) == Some(JsonTree::Number(decimal(now as nat)))
            &&& member(read, "lesson_id"@) == Some(JsonTree::Text(lesson_id))
            &&& member(read, "course_id"@) == Some(JsonTree::Text(course_id))
            &&& member(read, "kc"@) == Some(JsonTree::Array(seq![]))
            &&& member(read, "details"@) matches Some(details) && {
                &&& member(details, "command"@) == Some(JsonTree::Text("pytest"@))
                &&& member(details, "passed"@) == Some(
                    JsonTree::Number(decimal(counts.passed as nat)),
                )
                &&& member(details, "failed"@) == Some(
                    JsonTree::Number(decimal(counts.failed as nat)),
                )
                &&& member(details, "total"@) == Some(
                    JsonTree::Number(decimal(counts.total as nat)),
                )
                &&& member(details, "code"@) == Some(JsonTree::Text(code))
            }
            &&& member(unread, "details"@) matches Some(details) && member(details, "code"@)
                == Some(JsonTree::Null)
        }),
        // Nothing but the code depends on whether it could be read.
        ({
            let read = test_tree(now, lesson_id, course_id, counts, Some(code))->Object_0;
            let unread = test_tree(now, lesson_id, course_id, counts, None)->Object_0;
            &&& read.len() == 6 && unread.len() == 6
            &&& forall|i: int| 0 <= i < 5 ==> #[trigger] read[i] == unread[i]
            &&& read[5].0 == "details"@ && unread[5].0 == "details"@
            &&& read[5].1->Object_0.len() == 5 && unread[5].1->Object_0.len() == 5
            &&& forall|i: int|
                0 <= i < 4 ==> #[trigger] read[5].1->Object_0[i] == unread[5].1->Object_0[i]
        }),
{
    reveal_strlit("command");
    reveal_strlit("passed");
    reveal_strlit("failed");
    reveal_strlit("total");
    reveal_strlit("code");
    let read = test_tree(now, lesson_id, course_id, counts, Some(code));
    let unread = test_tree(now, lesson_id, course_id, counts, None);
    let a = read->Object_0[5].1->Object_0;
    let b = unread->Object_0[5].1->Object_0;
    lemma_event_names(now, "test"@, lesson_id, course_id, seq![], a);
    lemma_event_names(now, "test"@, lesson_id, course_id, seq![], b);
    assert(a[0].0.len() == 7 && a[1].0.len() == 6 && a[1].0[0] == 'p');
    assert(a[2].0.len() == 6 && a[2].0[0] == 'f' && a[3].0.len() == 5 && a[4].0.len() == 4);
    assert(b[0].0 == a[0].0 && b[1].0 == a[1].0 && b[2].0 == a[2].0 && b[3].0 == a[3].0);
    assert(b[4].0 == a[4].0);
    assert(names_differ(a));
    assert(names_differ(b));
    lemma_member_at(a, 0);
    lemma_member_at(a, 1);
    lemma_member_at(a, 2);
    lemma_member_at(a, 3);
    lemma_member_at(a, 4);
    lemma_member_at(b, 4);
}

/// The event of a run tells when it was, the lesson and the course, the command
/// and the code that was run: as it is where it could be read, and null only
/// where it could not.
pub proof fn law_run_event_tells_all(
    now: u64,
    lesson_id: Seq<char>,
    course_id: Seq<char>,
    command: Seq<char>,
    code: Seq<char>,
)
    ensures
        ({
            let read = run_tree(now, lesson_id, course_id, command, Some(code));
            let unread = run_tree(now, lesson_id, course_id, command, None);
            &&& member(read, "type"@) == Some(JsonTree::Text("run"@))
            &&& member(read, "ts"@) == Some(JsonTree::Number(decimal(now as nat)))
            &&& member(read, "lesson_id"@) == Some(JsonTree::Text(lesson_id))
            &&& member(read, "course_id"@) == Some(JsonTree::Text(course_id))
            &&& member(read, "kc"@) == Some(JsonTree::Array(seq![]))
            &&& member(read, "details"@) matches Some(details) && {
                &&& member(details, "command"@) == Some(JsonTree::Text(command))
                &&& member(details, "code"@) == Some(JsonTree::Text(code))
                &&& details->Object_0.len() == 2
            }
            &&& member(unread, "type"@) == Some(JsonTree::Text("run"@))
            &&& member(unread, "ts"@) == Some(JsonTree::Number(decimal(now as nat)))
            &&& member(unread, "lesson_id"@) == Some(JsonTree::Text(lesson_id))
            &&& member(unread, "course_id"@) == Some(JsonTree::Text(course_id))
            &&& member(unread, "details"@) matches Some(details) && {
                &&& member(details, "command"@) == Some(JsonTree::Text(command))
                &&& member(details, "code"@) == Some(JsonTree::Null)
                &&& details->Object_0.len() == 2
            }
        }),
{
    reveal_strlit("command");
    reveal_strlit("code");
    let a = run_tree(now, lesson_id, course_id, command, Some(code))->Object_0[5].1->Object_0;
    let b = run_tree(now, lesson_id, course_id, command, None)->Object_0[5].1->Object_0;
    lemma_event_names(now, "run"@, lesson_id, course_id, seq![], a);
    lemma_event_names(now, "run"@, lesson_id, course_id, seq![], b);
    assert(a[0].0.len() == 7 && a[1].0.len() == 4);
    assert(b[0].0.len() == 7 && b[1].0.len() == 4);
    assert(names_differ(a) && names_differ(b));
    lemma_member_at(a, 0);
    lemma_member_at(a, 1);
    lemma_member_at(b, 0);
    lemma_member_at(b, 1);
}

/// The event of a paste tells when it was, the lesson and the course, how much
/// was pasted and whether it was blocked. There is one event for each paste, in
/// the order of the log.
pub proof fn law_paste_events_tell_all(
    records: Seq<PasteRecord>,
    lesson_id: Seq<char>,
    course_id: Seq<char>,
    at: int,
)
    requires
        0 <= at < records.len(),
    ensures
        paste_trees(records, lesson_id, course_id).len() == records.len(),
        ({
            let tree = paste_trees(records, lesson_id, course_id)[at];
            let record = records[at];
            &&& member(tree, "type"@) == Some(JsonTree::Text("paste"@))
            &&& member(tree, "ts"@) == Some(
                JsonTree::Number(decimal((record.ts_ms as u64) as nat)),
            )
            &&& member(tree, "lesson_id"@) == Some(JsonTree::Text(lesson_id))
            &&& member(tree, "course_id"@) == Some(JsonTree::Text(course_id))
            &&& member(tree, "kc"@) == Some(JsonTree::Array(seq![]))
            &&& member(tree, "details"@) matches Some(details) && {
                &&& member(details, "bytes"@) == Some(
                    JsonTree::Number(decimal(record.bytes as nat)),
                )
                &&& member(details, "lines"@) == Some(
                    JsonTree::Number(decimal(record.lines as nat)),
                )
                &&& member(details, "blocked"@) == Some(JsonTree::Bool(record.was_blocked))
                &&& details->Object_0.len() == 3
            }
        }),
{
    reveal_strlit("bytes");
    reveal_strlit("lines");
    reveal_strlit("blocked");
    let record = records[at];
    let a = paste_tree(record, lesson_id, course_id)->Object_0[5].1->Object_0;
    lemma_event_names(record.ts_ms as u64, "paste"@, lesson_id, course_id, seq![], a);
    assert(a[0].0.len() == 5 && a[0].0[0] == 'b');
    assert(a[1].0.len() == 5 && a[1].0[0] == 'l');
    assert(a[2].0.len() == 7);
    assert(names_differ(a));
    lemma_member_at(a, 0);
    lemma_member_at(a, 1);
    lemma_member_at(a, 2);
}

/// What is sent to the gateway holds what was handed over and nothing else: a
/// batch its session and its events, a submission its content, its course and
/// its place, a question the lesson, the level, the question and the code.
pub proof fn law_bodies_hold_what_is_handed_over(
    session_id: Seq<char>,
    events: Seq<JsonTree>,
    content: Seq<char>,
    course_id: Seq<char>,
    file_path: Seq<char>,
    lesson_id: Seq<char>,
    level: Seq<char>,
    question: Seq<char>,
    code: Seq<char>,
)
    ensures
        ({
            let batch = batch_tree(session_id, events);
            &&& member(batch, "session_id"@) == Some(JsonTree::Text(session_id))
            &&& member(batch, "events"@) == Some(JsonTree::Array(events))
            &&& batch->Object_0.len() == 2
        }),
        ({
            let submission = submission_tree(content, course_id, file_path);
            &&& member(submission, "content"@) == Some(JsonTree::Text(content))
            &&& member(submission, "course_id"@) == Some(JsonTree::Text(course_id))
            &&& member(submission, "file_path"@) == Some(JsonTree::Text(file_path))
            &&& submission->Object_0.len() == 3
        }),
        ({
            let asked = question_tree(lesson_id, level, question, code);
            &&& member(asked, "lesson_id"@) == Some(JsonTree::Text(lesson_id))
            &&& member(asked, "level"@) == Some(JsonTree::Text(level))
            &&& member(asked, "user_question"@) == Some(JsonTree::Text(question))
            &&& member(asked, "current_code"@) == Some(JsonTree::Text(code))
            &&& member(asked, "allow_solution"@) == Some(JsonTree::Bool(false))
            &&& asked->Object_0.len() == 5
        }),
{
    reveal_strlit("session_id");
    reveal_strlit("events");
    let a = batch_tree(session_id, events)->Object_0;
    assert(a[0].0.len() == 10 && a[1].0.len() == 6);
    assert(names_differ(a));
    lemma_member_at(a, 0);
    lemma_member_at(a, 1);
    reveal_strlit("content");
    reveal_strlit("course_id");
    reveal_strlit("file_path");
    let b = submission_tree(content, course_id, file_path)->Object_0;
    assert(b[0].0.len() == 7 && b[1].0.len() == 9 && b[1].0[0] == 'c');
    assert(b[2].0.len() == 9 && b[2].0[0] == 'f');
    assert(names_differ(b));
    lemma_member_at(b, 0);
    lemma_member_at(b, 1);
    lemma_member_at(b, 2);
    reveal_strlit("lesson_id");
    reveal_strlit("level");
    reveal_strlit("user_question");
    reveal_strlit("current_code");
    reveal_strlit("allow_solution");
    let c = question_tree(lesson_id, level, question, code)->Object_0;
    assert(c[0].0.len() == 9 && c[1].0.len() == 5 && c[2].0.len() == 13);
    assert(c[3].0.len() == 12 && c[4].0.len() == 14);
    assert(names_differ(c));
    lemma_member_at(c, 0);
    lemma_member_at(c, 1);
    lemma_member_at(c, 2);
    lemma_member_at(c, 3);
    lemma_member_at(c, 4);
}

/// The sample batch is an edit, a run, a test run and a hint of one lesson of
/// one course, each a tenth of a second after the one before.
pub proof fn law_sample_events_follow_each_other(now: u64, at: int)
    requires
        now + 300 <= u64::MAX,
        0 <= at < 4,
    ensures
        sample_trees(now).len() == 4,
        ({
            let tree = sample_trees(now)[at];
            &&& member(tree, "type"@) == Some(
                JsonTree::Text(seq!["edit"@, "run"@, "test"@, "hint"@][at]),
            )
            &&& member(tree, "ts"@) == Some(JsonTree::Number(decimal((now + 100 * at) as nat)))
            &&& member(tree, "lesson_id"@) == Some(JsonTree::Text("csc141-01-first-variable"@))
            &&& member(tree, "course_id"@) == Some(JsonTree::Text("csc141-fall2026"@))
            &&& member(tree, "kc"@) == Some(
                JsonTree::Array(seq![JsonTree::Text("python-variables"@)]),
            )
            &&& member(tree, "details"@) == Some(
                JsonTree::Object(
                    if at == 0 {
                        seq![
                            ("added_chars"@, JsonTree::Number(decimal(12))),
                            ("deleted_chars"@, JsonTree::Number(decimal(0))),
                        ]
                    } else if at == 1 {
                        seq![("command"@, JsonTree::Text("python 01-first-variable.py"@))]
                    } else if at == 2 {
                        seq![
                            ("command"@, JsonTree::Text("pytest"@)),
                            ("passed"@, JsonTree::Number(decimal(2))),
                            ("failed"@, JsonTree::Number(decimal(0))),
                            ("total"@, JsonTree::Number(decimal(2))),
                        ]
                    } else {
                        seq![
                            ("level"@, JsonTree::Text("L1"@)),
                            ("length"@, JsonTree::Number(decimal(132))),
                        ]
                    },
                ),
            )
        }),
{
    let kinds = seq!["edit"@, "run"@, "test"@, "hint"@];
    let details = seq![sample_edit(), sample_run(), sample_test(), sample_hint()];
    lemma_event_names(
        (now + 100 * at) as u64,
        kinds[at],
        sample_lesson(),
        sample_course(),
        seq![JsonTree::Text("python-variables"@)],
        details[at],
    );
    assert(sample_trees(now)[at] == sample_tree(now + 100 * at, kinds[at], details[at]));
}

} // verus!
