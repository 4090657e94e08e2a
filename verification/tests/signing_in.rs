use wolfcode_lessons::auth::{
    sign_in_step, sign_out_note, start_sign_in, start_who_am_i, user_of, who_am_i_step,
    who_note_with, MeReply, SignInAction, SignInEvent, SignInState, UserInfo, WhoAmIAction,
    WhoAmIEvent, WhoAmIState,
};
use wolfcode_lessons::bff::{Body, Credentials, Sent};

fn user() -> UserInfo {
    UserInfo {
        id: "u1".to_string(),
        email: "a@b.c".to_string(),
        name: Some("A \"B\"".to_string()),
        role: None,
    }
}

fn answer(status: u16, body: &str) -> Sent {
    Sent::Answered {
        status,
        shown: "401 Unauthorized".to_string(),
        body: Body::Whole(body.to_string()),
    }
}

fn note(r: (SignInState, SignInAction)) -> String {
    match r {
        (SignInState::Done, SignInAction::Finish(note)) => note,
        _ => panic!(),
    }
}

fn at_answer() -> SignInState {
    let (state, action) = start_sign_in();
    assert!(matches!(action, SignInAction::ReadFile));
    let (state, action) = sign_in_step(state, SignInEvent::File(Ok(" \ntok\r\n".to_string())));
    match action {
        SignInAction::Send { request, trace } => {
            assert_eq!(trace, "read JWT (3 chars)");
            assert!(request.url.ends_with("/me"));
            assert_eq!(request.headers[0].1, "Bearer tok");
        }
        _ => panic!(),
    }
    state
}

fn at_reply() -> SignInState {
    let (state, action) = sign_in_step(at_answer(), SignInEvent::Answer(answer(200, "{..}")));
    assert!(matches!(action, SignInAction::Parse(body) if body == "{..}"));
    state
}

#[test]
fn accepted_token_is_stored() {
    let (state, action) =
        sign_in_step(at_reply(), SignInEvent::Reply(MeReply::Response(Some(user()))));
    match action {
        SignInAction::Store { jwt, trace } => {
            assert_eq!(jwt, "tok");
            assert_eq!(trace, "/me OK: id=u1 email=a@b.c");
        }
        _ => panic!(),
    }
    assert_eq!(note(sign_in_step(state, SignInEvent::Stored(Ok(())))), "JWT stored in keychain");
    assert_eq!(
        note(sign_in_step(SignInState::Stored, SignInEvent::Stored(Err("full".to_string())))),
        "keychain write FAILED: full"
    );
}

#[test]
fn token_file_must_hold_a_token() {
    assert_eq!(
        note(sign_in_step(start_sign_in().0, SignInEvent::File(Ok(" \n".to_string())))),
        "JWT file empty"
    );
    assert_eq!(
        note(sign_in_step(start_sign_in().0, SignInEvent::File(Err("gone".to_string())))),
        "read C:\\Users\\Quake\\Projects\\ai-editor\\wolfcode-jwt.txt FAILED: gone"
    );
}

#[test]
fn refused_token_is_not_stored() {
    assert_eq!(
        note(sign_in_step(at_answer(), SignInEvent::Answer(answer(401, "no")))),
        "/me FAILED: BFF /me returned 401 Unauthorized: no"
    );
    assert_eq!(
        note(sign_in_step(at_reply(), SignInEvent::Reply(MeReply::Invalid))),
        "/me FAILED: invalid /me response body: {..}"
    );
    assert_eq!(
        note(sign_in_step(at_reply(), SignInEvent::Reply(MeReply::Response(None)))),
        "/me FAILED: /me response missing `user` field: {..}"
    );
}

#[test]
fn user_is_the_one_that_is_named() {
    assert_eq!(user_of("b", MeReply::Response(Some(user()))).ok().unwrap().id, "u1");
    assert_eq!(user_of("b", MeReply::Invalid).err().unwrap(), "invalid /me response body: b");
}

#[test]
fn signing_out_is_noted() {
    assert_eq!(sign_out_note(Ok(())), "JWT deleted from keychain");
    assert_eq!(sign_out_note(Err("x".to_string())), "delete FAILED: x");
}

#[test]
fn who_is_signed_in_is_noted() {
    let (state, action) = start_who_am_i();
    assert!(matches!(action, WhoAmIAction::ReadCredentials));
    let (state, action) =
        who_am_i_step(state, WhoAmIEvent::Credentials(Credentials::Stored(b"T".to_vec())));
    match action {
        WhoAmIAction::Send(request) => assert_eq!(request.headers[0].1, "Bearer T"),
        _ => panic!(),
    }
    let (state, action) = who_am_i_step(state, WhoAmIEvent::Answer(answer(200, "b")));
    assert!(matches!(action, WhoAmIAction::Parse(body) if body == "b"));
    let (state, action) =
        who_am_i_step(state, WhoAmIEvent::Reply(MeReply::Response(Some(user()))));
    assert!(matches!(state, WhoAmIState::Done));
    assert!(matches!(
        action,
        WhoAmIAction::Finish(note)
            if note == "OK: id=u1 email=a@b.c name=Some(\"A \\\"B\\\"\") role=None"
    ));
    assert_eq!(who_note_with(&user(), "n", "r"), "OK: id=u1 email=a@b.c name=n role=r");
}

#[test]
fn nobody_signed_in_is_noted() {
    let end = |state: WhoAmIState, event: WhoAmIEvent| match who_am_i_step(state, event) {
        (WhoAmIState::Done, WhoAmIAction::Finish(note)) => note,
        _ => panic!(),
    };
    let start = || start_who_am_i().0;
    assert_eq!(
        end(start(), WhoAmIEvent::Credentials(Credentials::Absent)),
        "no JWT in keychain (sign in first)"
    );
    assert_eq!(
        end(start(), WhoAmIEvent::Credentials(Credentials::Unreadable("x".to_string()))),
        "keychain read FAILED: x"
    );
    assert_eq!(
        end(start(), WhoAmIEvent::Credentials(Credentials::Stored(vec![0x80]))),
        "JWT not valid UTF-8: invalid utf-8 sequence of 1 bytes from index 0"
    );
    assert_eq!(
        end(WhoAmIState::Answer, WhoAmIEvent::Answer(Sent::Failed("down".to_string()))),
        "/me FAILED: down"
    );
    assert_eq!(
        end(WhoAmIState::Reply("b".to_string()), WhoAmIEvent::Reply(MeReply::Invalid)),
        "/me FAILED: invalid /me response body: b"
    );
}
