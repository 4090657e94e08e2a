use wolfcode_lessons::bff::{
    events_outcome, events_request, lesson_status_reply, lesson_status_request, me_outcome,
    me_request, paste_outcome, paste_request, submission_outcome, submission_request, token_of,
    tutor_outcome, tutor_request, Body, Credentials, Method, Request, Sent, StatusReply, Token,
    BFF_URL,
};
use wolfcode_lessons::events::{
    paste_event, run_batch, run_event, sample_events, test_batch, test_event, PasteRecord,
    TestCounts,
};
use wolfcode_lessons::json::{read_text_member, render, Json};

fn answered(status: u16, shown: &str, body: &str) -> Sent {
    Sent::Answered { status, shown: shown.to_string(), body: Body::Whole(body.to_string()) }
}

fn broken(status: u16) -> Sent {
    Sent::Answered {
        status,
        shown: "500 Internal Server Error".to_string(),
        body: Body::Broken { partial: "half".to_string(), error: "cut off".to_string() },
    }
}

fn header<'a>(request: &'a Request, name: &str) -> Option<&'a str> {
    request.headers.iter().find(|(n, _)| n == name).map(|(_, v)| v.as_str())
}

#[test]
fn gateway_is_where_it_was() {
    assert_eq!(BFF_URL, "https://wolfcode-bff.quake0day.workers.dev");
}

#[test]
fn fetching_requests_carry_the_token_and_nothing_else() {
    let request = me_request("T");
    assert!(request.method == Method::Get);
    assert_eq!(request.url, "https://wolfcode-bff.quake0day.workers.dev/me");
    assert_eq!(request.headers, vec![("Authorization".to_string(), "Bearer T".to_string())]);
    assert!(request.body.is_none());
    let request = lesson_status_request("T");
    assert!(request.method == Method::Get);
    assert_eq!(
        request.url,
        "https://wolfcode-bff.quake0day.workers.dev/reports/me/lesson-status"
    );
}

#[test]
fn submission_request_is_json() {
    let request = submission_request("T", "a b", "c1", "ch/a b.py", "print(\"hi\")\n");
    assert!(request.method == Method::Post);
    assert_eq!(request.url, "https://wolfcode-bff.quake0day.workers.dev/submissions/a%20b");
    assert_eq!(header(&request, "Authorization"), Some("Bearer T"));
    assert_eq!(header(&request, "Content-Type"), Some("application/json"));
    assert_eq!(request.headers.len(), 2);
    assert_eq!(
        request.body.unwrap(),
        "{\"content\":\"print(\\\"hi\\\")\\n\",\"course_id\":\"c1\",\"file_path\":\"ch/a b.py\"}"
    );
}

#[test]
fn tutor_request_never_allows_the_solution() {
    let request = tutor_request("T", "l1", "L2", "why?", "x = 1");
    assert_eq!(request.url, "https://wolfcode-bff.quake0day.workers.dev/tutor/chat");
    assert_eq!(header(&request, "Accept"), Some("text/event-stream"));
    assert_eq!(header(&request, "Authorization"), Some("Bearer T"));
    assert_eq!(request.headers.len(), 3);
    assert_eq!(
        request.body.unwrap(),
        "{\"lesson_id\":\"l1\",\"level\":\"L2\",\"user_question\":\"why?\",\
         \"current_code\":\"x = 1\",\"allow_solution\":false}"
    );
}

#[test]
fn paste_request_reports_every_paste() {
    let records = vec![
        PasteRecord { ts_ms: 17, bytes: 3, lines: 1, was_blocked: false },
        PasteRecord { ts_ms: 18, bytes: 40, lines: 2, was_blocked: true },
    ];
    let request = paste_request(&records, "T", "l1", "c1").unwrap();
    assert_eq!(request.url, "https://wolfcode-bff.quake0day.workers.dev/events/batch");
    assert_eq!(
        request.body.unwrap(),
        "{\"session_id\":\"paste-17\",\"events\":[\
         {\"ts\":17,\"type\":\"paste\",\"lesson_id\":\"l1\",\"course_id\":\"c1\",\"kc\":[],\
         \"details\":{\"bytes\":3,\"lines\":1,\"blocked\":false}},\
         {\"ts\":18,\"type\":\"paste\",\"lesson_id\":\"l1\",\"course_id\":\"c1\",\"kc\":[],\
         \"details\":{\"bytes\":40,\"lines\":2,\"blocked\":true}}]}"
    );
    assert!(paste_request(&Vec::new(), "T", "l1", "c1").is_none());
}

#[test]
fn time_of_a_paste_is_cut_to_its_low_bits() {
    let record = PasteRecord { ts_ms: (1u128 << 64) + 5, bytes: 0, lines: 0, was_blocked: false };
    assert!(render(&paste_event(&record, "l", "c")).starts_with("{\"ts\":5,"));
    let request = paste_request(&vec![record], "T", "l", "c").unwrap();
    assert!(request.body.unwrap().starts_with("{\"session_id\":\"paste-18446744073709551621\""));
}

#[test]
fn run_event_carries_code_or_null() {
    assert_eq!(
        render(&run_event(5, "l", "c", "python a.py", &Some("x".to_string()))),
        "{\"ts\":5,\"type\":\"run\",\"lesson_id\":\"l\",\"course_id\":\"c\",\"kc\":[],\
         \"details\":{\"command\":\"python a.py\",\"code\":\"x\"}}"
    );
    assert!(render(&run_event(5, "l", "c", "r", &None)).ends_with("\"code\":null}}"));
    let (session, events) = run_batch((1u128 << 64) + 7, "l", "c", "r", &None);
    assert_eq!(session, "run-7");
    assert_eq!(events.len(), 1);
}

#[test]
fn test_event_carries_the_counts() {
    let counts = TestCounts { passed: 2, failed: 1, total: 3 };
    assert_eq!(
        render(&test_event(5, "l", "c", &counts, &None)),
        "{\"ts\":5,\"type\":\"test\",\"lesson_id\":\"l\",\"course_id\":\"c\",\"kc\":[],\
         \"details\":{\"command\":\"pytest\",\"passed\":2,\"failed\":1,\"total\":3,\"code\":null}}"
    );
    let (session, events) = test_batch((1u128 << 64) + 1, 9, "l", "c", &counts, &None);
    assert_eq!(session, "test-18446744073709551617");
    assert_eq!(events.len(), 1);
    assert!(render(&events[0]).starts_with("{\"ts\":9,"));
}

#[test]
fn sample_events_cover_edit_run_test_and_hint() {
    let events = sample_events(1000);
    let shown: Vec<String> = events.iter().map(render).collect();
    assert_eq!(
        shown,
        vec![
            "{\"ts\":1000,\"type\":\"edit\",\"lesson_id\":\"csc141-01-first-variable\",\"course_id\":\"csc141-fall2026\",\"kc\":[\"python-variables\"],\"details\":{\"added_chars\":12,\"deleted_chars\":0}}",
            "{\"ts\":1100,\"type\":\"run\",\"lesson_id\":\"csc141-01-first-variable\",\"course_id\":\"csc141-fall2026\",\"kc\":[\"python-variables\"],\"details\":{\"command\":\"python 01-first-variable.py\"}}",
            "{\"ts\":1200,\"type\":\"test\",\"lesson_id\":\"csc141-01-first-variable\",\"course_id\":\"csc141-fall2026\",\"kc\":[\"python-variables\"],\"details\":{\"command\":\"pytest\",\"passed\":2,\"failed\":0,\"total\":2}}",
            "{\"ts\":1300,\"type\":\"hint\",\"lesson_id\":\"csc141-01-first-variable\",\"course_id\":\"csc141-fall2026\",\"kc\":[\"python-variables\"],\"details\":{\"level\":\"L1\",\"length\":132}}",
        ]
    );
    let request = events_request("T", "s", events);
    assert!(request.body.unwrap().starts_with("{\"session_id\":\"s\",\"events\":[{\"ts\":1000,"));
}

#[test]
fn every_kind_of_json_is_written() {
    let json = Json::Object(vec![
        ("z".to_string(), Json::Null),
        ("a".to_string(), Json::Bool(true)),
        ("n".to_string(), Json::Number(u64::MAX)),
        ("t".to_string(), Json::Text("\"\\\u{1}任".to_string())),
        ("l".to_string(), Json::Array(vec![Json::Number(1), Json::Array(Vec::new())])),
    ]);
    assert_eq!(
        render(&json),
        "{\"z\":null,\"a\":true,\"n\":18446744073709551615,\"t\":\"\\\"\\\\\\u0001任\",\"l\":[1,[]]}"
    );
}

#[test]
fn text_member_is_read_back() {
    let json = Json::Object(vec![("id".to_string(), Json::Text("a\"b".to_string()))]);
    let written = render(&json);
    assert_eq!(read_text_member(written.as_bytes(), "id"), Some("a\"b".to_string()));
    assert_eq!(read_text_member(written.as_bytes(), "di"), None);
}

#[test]
fn success_gives_the_reply() {
    assert_eq!(submission_outcome(answered(200, "200 OK", "r")), Ok("r".to_string()));
    assert_eq!(events_outcome(answered(299, "299", "r")), Ok("r".to_string()));
    assert_eq!(tutor_outcome(answered(200, "200 OK", "r")), Ok("r".to_string()));
    assert_eq!(me_outcome(answered(204, "204 No Content", "")), Ok(String::new()));
    assert_eq!(paste_outcome(4, Some(answered(200, "200 OK", "r"))), Ok(4));
    assert_eq!(paste_outcome(0, None), Ok(0));
}

#[test]
fn refusals_are_told_with_status_and_text() {
    let no = || answered(401, "401 Unauthorized", "bad token");
    assert_eq!(
        submission_outcome(no()),
        Err("/submissions returned 401 Unauthorized: bad token".to_string())
    );
    assert_eq!(
        events_outcome(no()),
        Err("/events/batch returned 401 Unauthorized: bad token".to_string())
    );
    assert_eq!(
        paste_outcome(1, Some(no())),
        Err("/events/batch (paste flush) returned 401 Unauthorized: bad token".to_string())
    );
    assert_eq!(
        tutor_outcome(no()),
        Err("/tutor/chat returned 401 Unauthorized: bad token".to_string())
    );
    assert_eq!(me_outcome(no()), Err("BFF /me returned 401 Unauthorized: bad token".to_string()));
    assert!(events_outcome(answered(199, "199", "")).is_err());
    assert!(events_outcome(answered(300, "300", "")).is_err());
}

#[test]
fn requests_that_fail_tell_why() {
    let failed = || Sent::Failed("no route".to_string());
    assert_eq!(events_outcome(Sent::Unmade("bad".to_string())), Err("bad".to_string()));
    assert_eq!(me_outcome(Sent::Unmade("bad".to_string())), Err("bad".to_string()));
    assert_eq!(submission_outcome(failed()), Err("no route".to_string()));
    assert_eq!(tutor_outcome(failed()), Err("no route".to_string()));
    assert_eq!(paste_outcome(1, Some(failed())), Err("no route".to_string()));
}

#[test]
fn broken_answers_tell_the_status_only_where_it_comes_first() {
    assert_eq!(events_outcome(broken(500)), Err("cut off".to_string()));
    assert_eq!(events_outcome(broken(200)), Err("cut off".to_string()));
    assert_eq!(
        tutor_outcome(broken(500)),
        Err("/tutor/chat returned 500 Internal Server Error: half".to_string())
    );
    assert_eq!(me_outcome(broken(200)), Err("cut off".to_string()));
}

#[test]
fn lesson_status_is_had_on_success_only() {
    assert!(matches!(
        lesson_status_reply(answered(200, "200 OK", "{}")),
        StatusReply::Text(text) if text == "{}"
    ));
    assert!(matches!(
        lesson_status_reply(answered(403, "403 Forbidden", "{}")),
        StatusReply::Noted(note) if note == "status=403 Forbidden"
    ));
    assert!(matches!(
        lesson_status_reply(broken(500)),
        StatusReply::Noted(note) if note == "status=500 Internal Server Error"
    ));
    assert!(matches!(lesson_status_reply(broken(200)), StatusReply::Nothing));
    assert!(matches!(
        lesson_status_reply(Sent::Failed("x".to_string())),
        StatusReply::Noted(note) if note == "http error"
    ));
    assert!(matches!(
        lesson_status_reply(Sent::Unmade("x".to_string())),
        StatusReply::Nothing
    ));
}

#[test]
fn token_is_the_stored_text() {
    assert!(matches!(token_of(Credentials::Stored(b"jwt".to_vec())), Token::Present(s) if s == "jwt"));
    assert!(matches!(token_of(Credentials::Absent), Token::Absent));
    assert!(matches!(
        token_of(Credentials::Unreadable("locked".to_string())),
        Token::Unreadable(e) if e == "locked"
    ));
    assert!(matches!(
        token_of(Credentials::Stored(vec![b'a', 0xff])),
        Token::Garbled(e) if e == "invalid utf-8 sequence of 1 bytes from index 1"
    ));
}
