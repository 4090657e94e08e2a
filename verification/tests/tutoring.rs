use wolfcode_lessons::bff::{Body, Credentials, Sent};
use wolfcode_lessons::json::Field;
use wolfcode_lessons::tutor::{
    ask_step, combine_stream, pick_chunk, read_answer, start_ask, AskAction, AskEvent, AskState,
    HintLevel, PanelStatus, TutorPanel, QUESTION, TUTOR_PANEL_KEY,
};
use wolfcode_lessons::view::Tone;

fn stream(body: &str) -> Sent {
    Sent::Answered {
        status: 200,
        shown: "200 OK".to_string(),
        body: Body::Whole(body.to_string()),
    }
}

fn text(s: &str) -> Field {
    Field::Text(s.to_string())
}

#[test]
fn plain_tokens_keep_their_spaces() {
    assert_eq!(combine_stream("data: Look\ndata:  at\ndata:  line 3.\n"), "Look at line 3.");
    assert_eq!(combine_stream("data:no space\r\ndata: x"), "no spacex");
}

#[test]
fn json_tokens_give_their_text() {
    assert_eq!(
        combine_stream("data: {\"delta\":\"He\"}\ndata: {\"content\":\"ll\"}\ndata: {\"text\":\"o\"}\n"),
        "Hello"
    );
    assert_eq!(combine_stream("data: {\"text\":\"b\",\"delta\":\"a\"}"), "a");
}

#[test]
fn other_json_stands_as_it_is() {
    assert_eq!(combine_stream("data: {\"x\":1}"), "{\"x\":1}");
    assert_eq!(combine_stream("data: 42"), "42");
    assert_eq!(combine_stream("data: \"quoted\""), "\"quoted\"");
    assert_eq!(
        combine_stream("data: {\"delta\":null,\"text\":\"t\"}"),
        "{\"delta\":null,\"text\":\"t\"}"
    );
}

#[test]
fn lines_without_data_are_skipped() {
    assert_eq!(
        combine_stream("event: x\n\n: comment\ndata:\ndata: \ndata: a\ndata: [DONE]\n data: b\n"),
        "a"
    );
    assert_eq!(combine_stream(""), "");
}

#[test]
fn first_member_that_is_there_counts() {
    assert_eq!(pick_chunk("p", text("d"), text("c"), text("t")), "d");
    assert_eq!(pick_chunk("p", Field::Missing, text("c"), text("t")), "c");
    assert_eq!(pick_chunk("p", Field::Missing, Field::Missing, text("t")), "t");
    assert_eq!(pick_chunk("p", Field::Other, text("c"), text("t")), "p");
    assert_eq!(pick_chunk("p", Field::Missing, Field::Other, text("t")), "p");
    assert_eq!(pick_chunk("p", Field::Missing, Field::Missing, Field::Other), "p");
    assert_eq!(pick_chunk("p", Field::Missing, Field::Missing, Field::Missing), "p");
}

#[test]
fn answer_or_what_went_wrong() {
    assert_eq!(read_answer(stream("data: hi\n")), Ok("hi".to_string()));
    assert_eq!(read_answer(Sent::Failed("down".to_string())), Err("down".to_string()));
}

#[test]
fn levels_are_written_as_they_are_named() {
    assert_eq!(HintLevel::L1.name(), "L1");
    assert_eq!(HintLevel::L2.name(), "L2");
    assert_eq!(HintLevel::L3.name(), "L3");
    assert_eq!(TUTOR_PANEL_KEY, "TutorPanel");
}

#[test]
fn panel_starts_idle() {
    let panel = TutorPanel::new();
    let shown = panel.shown();
    assert_eq!(shown.status.text, "idle");
    assert!(shown.status.tone == Tone::Muted);
    assert!(shown.lesson.is_none() && shown.level.is_none() && shown.question.is_none());
    assert_eq!(
        shown.body.text,
        "Open a Python lesson and run\n`WolfCode Tutor: Ask L1` from the command palette."
    );
}

#[test]
fn panel_follows_a_question() {
    let mut panel = TutorPanel::new();
    panel.set_active(true);
    panel.start_request("01-x".to_string(), HintLevel::L2, "why?".to_string());
    let shown = panel.shown();
    assert_eq!(shown.status.text, "asking...");
    assert_eq!(shown.lesson.unwrap().text, "lesson: 01-x");
    assert_eq!(shown.level.unwrap().text, "level: L2");
    assert_eq!(shown.body.text, "Waiting for the AI Tutor...");
    panel.finish_request("é!".to_string());
    let shown = panel.shown();
    assert_eq!(shown.status.text, "replied · 2 chars");
    assert_eq!(shown.question.unwrap().text, "why?");
    assert!(shown.status.tone == Tone::Success);
    assert_eq!(shown.body.text, "é!");
    assert!(panel.active);
    panel.start_request("02-y".to_string(), HintLevel::L1, QUESTION.to_string());
    assert!(panel.reply.is_none());
    panel.fail_request("no net".to_string());
    let shown = panel.shown();
    assert_eq!(shown.status.text, "error");
    assert_eq!(shown.question.unwrap().text, QUESTION);
    assert_eq!(shown.body.text, "no net");
    assert!(shown.body.tone == Tone::Error);
}

#[test]
fn reply_that_is_missing_is_told() {
    let mut panel = TutorPanel::new();
    panel.status = PanelStatus::Replied(0);
    assert_eq!(panel.shown().body.text, "(empty reply)");
}

#[test]
fn question_goes_through_to_its_answer() {
    let (state, action) = start_ask("01-x".to_string(), HintLevel::L3);
    assert!(matches!(action, AskAction::ReadCredentials));
    let (state, action) =
        ask_step(state, AskEvent::Credentials(Credentials::Stored(b"T".to_vec())));
    assert!(matches!(action, AskAction::ReadCode));
    let (state, action) = ask_step(state, AskEvent::Code(None));
    match action {
        AskAction::Send(request) => {
            let body = request.body.unwrap();
            assert!(body.contains("\"level\":\"L3\""));
            assert!(body.contains(QUESTION));
            assert!(body.contains("\"current_code\":\"\""));
            assert!(body.ends_with("\"allow_solution\":false}"));
        }
        _ => panic!(),
    }
    let (state, action) = ask_step(state, AskEvent::Answer(stream("data: ok\n")));
    assert!(matches!(state, AskState::Done));
    assert!(matches!(action, AskAction::Finish(reply) if reply == "ok"));
}

#[test]
fn question_fails_with_a_word() {
    let failure = |credentials: Credentials| {
        let (state, _) = start_ask("l".to_string(), HintLevel::L1);
        match ask_step(state, AskEvent::Credentials(credentials)) {
            (AskState::Done, AskAction::Fail(e)) => e,
            _ => panic!(),
        }
    };
    assert_eq!(failure(Credentials::Absent), "no JWT — run SignInFromFile");
    assert_eq!(failure(Credentials::Unreadable("x".to_string())), "keychain read failed: x");
    assert_eq!(
        failure(Credentials::Stored(vec![0xff])),
        "JWT not UTF-8: invalid utf-8 sequence of 1 bytes from index 0"
    );
    let (_, action) = ask_step(AskState::Answer, AskEvent::Answer(Sent::Failed("down".to_string())));
    assert!(matches!(action, AskAction::Fail(e) if e == "down"));
}
