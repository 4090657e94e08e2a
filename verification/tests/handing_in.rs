use wolfcode_lessons::bff::{Body, Credentials, Sent};
use wolfcode_lessons::events::PasteRecord;
use wolfcode_lessons::submit::{
    parse_submission_id, start_submit, submit_step, Submission, SubmitAction, SubmitEvent,
    SubmitState,
};

fn submission() -> Submission {
    Submission {
        lesson_id: "01-x".to_string(),
        course_id: "c1".to_string(),
        rel_path: "ch/01-x.py".to_string(),
    }
}

fn reply(status: u16, body: &str) -> Sent {
    Sent::Answered {
        status,
        shown: "S".to_string(),
        body: Body::Whole(body.to_string()),
    }
}

fn finished(r: (SubmitState, SubmitAction)) -> (String, bool) {
    assert!(matches!(r.0, SubmitState::Done));
    match r.1 {
        SubmitAction::Finish { toast, refresh } => (toast, refresh),
        _ => panic!(),
    }
}

fn at_pastes() -> SubmitState {
    let (state, action) = start_submit(submission());
    assert!(matches!(action, SubmitAction::ReadCredentials));
    let (state, action) =
        submit_step(state, SubmitEvent::Credentials(Credentials::Stored(b"T".to_vec())));
    assert!(matches!(action, SubmitAction::ReadFile));
    let (state, action) = submit_step(state, SubmitEvent::File(Ok("é=1\n".to_string())));
    assert!(matches!(action, SubmitAction::DrainPastes));
    state
}

fn at_reply() -> SubmitState {
    let (state, action) = submit_step(at_pastes(), SubmitEvent::Pastes(Vec::new()));
    match action {
        SubmitAction::SendSubmission(request) => {
            assert!(request.url.ends_with("/submissions/01-x"));
            assert_eq!(request.headers[0].1, "Bearer T");
        }
        _ => panic!(),
    }
    state
}

#[test]
fn submission_id_stands_behind_its_key() {
    assert_eq!(
        parse_submission_id("{\"submission_id\":\"abc-1\",\"ok\":true}"),
        Some("abc-1".to_string())
    );
    assert_eq!(
        parse_submission_id("{\"ok\":true,\"submission_id\":\"\"}"),
        Some(String::new())
    );
    assert_eq!(parse_submission_id("{\"submission_id\": \"abc\"}"), None);
    assert_eq!(parse_submission_id("{\"submission_id\":\"abc"), None);
    assert_eq!(parse_submission_id(""), None);
    assert_eq!(
        parse_submission_id("\"submission_id\":\"a\" \"submission_id\":\"b\""),
        Some("a".to_string())
    );
}

#[test]
fn pastes_go_before_the_solution() {
    let records = vec![PasteRecord { ts_ms: 5, bytes: 1, lines: 1, was_blocked: false }];
    let (state, action) = submit_step(at_pastes(), SubmitEvent::Pastes(records));
    match action {
        SubmitAction::SendPastes(request) => {
            assert!(request.url.ends_with("/events/batch"));
            assert!(request.body.unwrap().contains("\"lesson_id\":\"01-x\""));
        }
        _ => panic!(),
    }
    let (_, action) =
        submit_step(state, SubmitEvent::PastesSent(Sent::Failed("down".to_string())));
    assert!(matches!(action, SubmitAction::SendSubmission(_)));
}

#[test]
fn success_is_told_with_bytes_and_short_id() {
    let event = SubmitEvent::Submitted(reply(201, "{\"submission_id\":\"0123456789\"}"));
    assert_eq!(
        finished(submit_step(at_reply(), event)),
        ("✓ Submitted 5 bytes · id=01234567… · lesson=01-x".to_string(), true)
    );
    let event = SubmitEvent::Submitted(reply(200, "{}"));
    assert_eq!(
        finished(submit_step(at_reply(), event)),
        ("✓ Submitted 5 bytes · id=?… · lesson=01-x".to_string(), true)
    );
}

#[test]
fn refused_submission_is_told() {
    let event = SubmitEvent::Submitted(reply(500, "oops"));
    assert_eq!(
        finished(submit_step(at_reply(), event)),
        ("Submit failed: /submissions returned S: oops".to_string(), false)
    );
}

#[test]
fn submission_needs_a_token() {
    let step = |credentials: Credentials| {
        finished(submit_step(start_submit(submission()).0, SubmitEvent::Credentials(credentials)))
    };
    assert_eq!(
        step(Credentials::Absent),
        ("Not signed in. Run `WolfCode: Sign In From File` first.".to_string(), false)
    );
    assert_eq!(
        step(Credentials::Unreadable("locked".to_string())),
        ("Submit failed: keychain — locked".to_string(), false)
    );
    assert_eq!(
        step(Credentials::Stored(vec![0xff])),
        (
            "Submit failed: bad JWT — invalid utf-8 sequence of 1 bytes from index 0".to_string(),
            false
        )
    );
}

#[test]
fn submission_needs_its_file() {
    let (state, _) = submit_step(
        start_submit(submission()).0,
        SubmitEvent::Credentials(Credentials::Stored(b"T".to_vec())),
    );
    assert_eq!(
        finished(submit_step(state, SubmitEvent::File(Err("gone".to_string())))),
        ("Submit failed: couldn't read file — gone".to_string(), false)
    );
}
