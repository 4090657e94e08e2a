//! Signing in, signing out, and asking who is signed in. These tools speak to
//! the student through the trace only.

use crate::bff::{
    bearer, fetched, get_view, me_outcome, me_request, token_of, utf8_fault, Body, Credentials,
    Method, Request, Sent, Token, BFF_URL,
};
use crate::text::{decimal, decimal_text, opt_view, trim, trimmed};
use vstd::prelude::*;
use vstd::utf8::{decode_utf8, encode_utf8, valid_utf8};

verus! {

/// The file that a token is handed over in.
pub const JWT_FILE: &'static str = "C:\\Users\\Quake\\Projects\\ai-editor\\wolfcode-jwt.txt";

// ---------------------------------------------------------------------------
// Who the token belongs to
// ---------------------------------------------------------------------------

/// A user of the gateway.
pub struct UserInfo {
    pub id: String,
    pub email: String,
    pub name: Option<String>,
    pub role: Option<String>,
}

/// What the text of an answer says of the user.
pub enum MeReply {
    /// It is not the text of such an answer.
    Invalid,
    /// It is, and this is the user, where it names one.
    Response(Option<UserInfo>),
}

/// The user that an answer names, or what is wrong with it.
pub open spec fn named_user(body: Seq<char>, reply: MeReply) -> Result<UserInfo, Seq<char>> {
    match reply {
        MeReply::Invalid => Err("invalid /me response body: "@ + body),
        MeReply::Response(None) => Err("/me response missing `user` field: "@ + body),
        MeReply::Response(Some(user)) => Ok(user),
    }
}

/// The user that an answer with that text names, or what is wrong with it.
pub fn user_of(body: &str, reply: MeReply) -> (r: Result<UserInfo, String>)
    ensures
        match named_user(body@, reply) {
            Ok(user) => r == Ok::<UserInfo, String>(user),
            Err(e) => r matches Err(error) && error@ == e,
        },
{
    match reply {
        MeReply::Invalid => Err("invalid /me response body: ".to_string().concat(body)),
        MeReply::Response(user) => match user {
            None => Err("/me response missing `user` field: ".to_string().concat(body)),
            Some(user) => Ok(user),
        },
    }
}

// ---------------------------------------------------------------------------
// Signing in
// ---------------------------------------------------------------------------

/// How far signing in has come: what it waits for.
pub enum SignInState {
    /// The file with the token.
    File,
    /// The answer of the gateway to this token.
    Answer(String),
    /// What the text of the answer says; first the token, then the text.
    Reply(String, String),
    /// The keychain.
    Stored,
    /// Nothing: all is done.
    Done,
}

/// What signing in waited for.
pub enum SignInEvent {
    /// The file as text, or why it could not be read.
    File(Result<String, String>),
    Answer(Sent),
    Reply(MeReply),
    /// The keychain took the token, or why it did not.
    Stored(Result<(), String>),
}

/// What is to be done next.
pub enum SignInAction {
    ReadFile,
    /// Send a request, and note this in the trace.
    Send { request: Request, trace: String },
    /// Read who the user is from a text.
    Parse(String),
    /// Put the token into the keychain, and note this in the trace.
    Store { jwt: String, trace: String },
    /// Note this in the trace.
    Finish(String),
}

/// Whether an event is the one that is waited for.
pub open spec fn sign_in_awaited(state: SignInState, event: SignInEvent) -> bool {
    match state {
        SignInState::File => event is File,
        SignInState::Answer(_) => event is Answer,
        SignInState::Reply(_, _) => event is Reply,
        SignInState::Stored => event is Stored,
        SignInState::Done => false,
    }
}

/// Whether all ends with that note.
pub open spec fn sign_in_ends(next: SignInState, action: SignInAction, note: Seq<char>) -> bool {
    next is Done && (action matches SignInAction::Finish(message) && message@ == note)
}

/// Whether `next` and `action` are what an event leads to.
pub open spec fn sign_in_leads(
    state: SignInState,
    event: SignInEvent,
    next: SignInState,
    action: SignInAction,
) -> bool {
    match (state, event) {
        (SignInState::File, SignInEvent::File(read)) => match read {
            Err(e) => sign_in_ends(next, action, "read "@ + JWT_FILE@ + " FAILED: "@ + e@),
            Ok(text) => if trimmed(text@).len() == 0 {
                sign_in_ends(next, action, "JWT file empty"@)
            } else {
                &&& next matches SignInState::Answer(jwt) && jwt@ == trimmed(text@)
                &&& action matches SignInAction::Send { request, trace } && request@ == get_view(
                    "/me"@,
                    trimmed(text@),
                ) && trace@ == "read JWT ("@ + decimal(encode_utf8(trimmed(text@)).len())
                    + " chars)"@
            },
        },
        (SignInState::Answer(jwt), SignInEvent::Answer(sent)) => match fetched("BFF /me"@, sent) {
            Ok(body) => {
                &&& next matches SignInState::Reply(same, text) && same == jwt && text@ == body
                &&& action matches SignInAction::Parse(text) && text@ == body
            },
            Err(e) => sign_in_ends(next, action, "/me FAILED: "@ + e),
        },
        (SignInState::Reply(jwt, body), SignInEvent::Reply(reply)) => match named_user(
            body@,
            reply,
        ) {
            Ok(user) => {
                &&& next is Stored
                &&& action matches SignInAction::Store { jwt: token, trace } && token == jwt
                    && trace@ == "/me OK: id="@ + user.id@ + " email="@ + user.email@
            },
            Err(e) => sign_in_ends(next, action, "/me FAILED: "@ + e),
        },
        (SignInState::Stored, SignInEvent::Stored(stored)) => match stored {
            Ok(_) => sign_in_ends(next, action, "JWT stored in keychain"@),
            Err(e) => sign_in_ends(next, action, "keychain write FAILED: "@ + e@),
        },
        _ => false,
    }
}

/// Starts signing in.
pub fn start_sign_in() -> (r: (SignInState, SignInAction))
    ensures
        r.0 is File,
        r.1 is ReadFile,
{
    (SignInState::File, SignInAction::ReadFile)
}

/// Ends signing in with a note.
fn end_sign_in(note: String) -> (r: (SignInState, SignInAction))
    ensures
        sign_in_ends(r.0, r.1, note@),
{
    (SignInState::Done, SignInAction::Finish(note))
}

/// What is noted of a file that could not be read.
fn file_fault(error: &str) -> (r: String)
    ensures
        r@ == "read "@ + JWT_FILE@ + " FAILED: "@ + error@,
{
    let mut r = "read ".to_string();
    r.append(JWT_FILE);
    r.append(" FAILED: ");
    r.append(error);
    r
}

/// What is noted of a token that was read: how long its encoding is.
fn token_note(jwt: &str) -> (r: String)
    ensures
        r@ == "read JWT ("@ + decimal(encode_utf8(jwt@).len()) + " chars)"@,
{
    let mut r = "read JWT (".to_string();
    r.append(decimal_text(jwt.as_bytes().len() as u128).as_str());
    r.append(" chars)");
    r
}

/// What is noted of a user that the gateway knows.
fn user_note(user: &UserInfo) -> (r: String)
    ensures
        r@ == "/me OK: id="@ + user.id@ + " email="@ + user.email@,
{
    let mut r = "/me OK: id=".to_string();
    r.append(user.id.as_str());
    r.append(" email=");
    r.append(user.email.as_str());
    r
}

/// Goes on with signing in when what it waits for has come.
pub fn sign_in_step(state: SignInState, event: SignInEvent) -> (r: (SignInState, SignInAction))
    requires
        sign_in_awaited(state, event),
    ensures
        sign_in_leads(state, event, r.0, r.1),
{
    match (state, event) {
        (SignInState::File, SignInEvent::File(read)) => match read {
            Err(e) => end_sign_in(file_fault(e.as_str())),
            Ok(text) => {
                let jwt = trim(text.as_str());
                if jwt.as_str().is_empty() {
                    end_sign_in("JWT file empty".to_string())
                } else {
                    let request = me_request(jwt.as_str());
                    let trace = token_note(jwt.as_str());
                    (SignInState::Answer(jwt), SignInAction::Send { request, trace })
                }
            },
        },
        (SignInState::Answer(jwt), SignInEvent::Answer(sent)) => match me_outcome(sent) {
            Ok(body) => (SignInState::Reply(jwt, body.clone()), SignInAction::Parse(body)),
            Err(e) => end_sign_in("/me FAILED: ".to_string().concat(e.as_str())),
        },
        (SignInState::Reply(jwt, body), SignInEvent::Reply(reply)) => match user_of(
            body.as_str(),
            reply,
        ) {
            Ok(user) => (SignInState::Stored, SignInAction::Store { jwt, trace: user_note(&user) }),
            Err(e) => end_sign_in("/me FAILED: ".to_string().concat(e.as_str())),
        },
        (SignInState::Stored, SignInEvent::Stored(stored)) => match stored {
            Ok(_) => end_sign_in("JWT stored in keychain".to_string()),
            Err(e) => end_sign_in("keychain write FAILED: ".to_string().concat(e.as_str())),
        },
        // Nothing else is awaited.
        (state, _) => (state, SignInAction::ReadFile),
    }
}

/// What is noted of signing out.
pub fn sign_out_note(deleted: Result<(), String>) -> (r: String)
    ensures
        r@ == (match deleted {
            Ok(_) => "JWT deleted from keychain"@,
            Err(e) => "delete FAILED: "@ + e@,
        }),
{
    match deleted {
        Ok(_) => "JWT deleted from keychain".to_string(),
        Err(e) => "delete FAILED: ".to_string().concat(e.as_str()),
    }
}

// ---------------------------------------------------------------------------
// Who is signed in
// ---------------------------------------------------------------------------

/// How far the question has come: what it waits for.
pub enum WhoAmIState {
    /// The token.
    Credentials,
    /// The answer of the gateway.
    Answer,
    /// What this text says.
    Reply(String),
    /// Nothing: all is done.
    Done,
}

/// What the question waited for.
pub enum WhoAmIEvent {
    Credentials(Credentials),
    Answer(Sent),
    Reply(MeReply),
}

/// What is to be done next.
pub enum WhoAmIAction {
    ReadCredentials,
    Send(Request),
    /// Read who the user is from a text.
    Parse(String),
    /// Note this in the trace.
    Finish(String),
}

/// An optional text as Rust's `Debug` writes it.
pub uninterp spec fn debug_text(s: Option<Seq<char>>) -> Seq<char>;

/// `Debug` for `Option<String>`. Nothing is said here of how it quotes a text
/// beyond that the result is a function of it.
#[verifier::external_body]
fn written_for_debug(s: &Option<String>) -> (r: String)
    ensures
        r@ == debug_text(opt_view(*s)),
{
    format!("{:?}", s)
}

/// What is noted of the user that is signed in, given how name and role are
/// written.
pub open spec fn who_note(user: UserInfo, name: Seq<char>, role: Seq<char>) -> Seq<char> {
    "OK: id="@ + user.id@ + " email="@ + user.email@ + " name="@ + name + " role="@ + role
}

/// What is noted of the user that is signed in, given how name and role are
/// written.
pub fn who_note_with(user: &UserInfo, name: &str, role: &str) -> (r: String)
    ensures
        r@ == who_note(*user, name@, role@),
{
    let mut r = "OK: id=".to_string();
    r.append(user.id.as_str());
    r.append(" email=");
    r.append(user.email.as_str());
    r.append(" name=");
    r.append(name);
    r.append(" role=");
    r.append(role);
    r
}

/// Whether an event is the one that is waited for.
pub open spec fn who_awaited(state: WhoAmIState, event: WhoAmIEvent) -> bool {
    match state {
        WhoAmIState::Credentials => event is Credentials,
        WhoAmIState::Answer => event is Answer,
        WhoAmIState::Reply(_) => event is Reply,
        WhoAmIState::Done => false,
    }
}

/// Whether all ends with that note.
pub open spec fn who_ends(next: WhoAmIState, action: WhoAmIAction, note: Seq<char>) -> bool {
    next is Done && (action matches WhoAmIAction::Finish(message) && message@ == note)
}

/// Whether `next` and `action` are what an event leads to.
pub open spec fn who_leads(
    state: WhoAmIState,
    event: WhoAmIEvent,
    next: WhoAmIState,
    action: WhoAmIAction,
) -> bool {
    match (state, event) {
        (WhoAmIState::Credentials, WhoAmIEvent::Credentials(credentials)) => match credentials {
            Credentials::Unreadable(e) => who_ends(next, action, "keychain read FAILED: "@ + e@),
            Credentials::Absent => who_ends(next, action, "no JWT in keychain (sign in first)"@),
            Credentials::Stored(bytes) => if valid_utf8(bytes@) {
                &&& next is Answer
                &&& action matches WhoAmIAction::Send(request) && request@ == get_view(
                    "/me"@,
                    decode_utf8(bytes@),
                )
            } else {
                who_ends(next, action, "JWT not valid UTF-8: "@ + utf8_fault(bytes@))
            },
        },
        (WhoAmIState::Answer, WhoAmIEvent::Answer(sent)) => match fetched("BFF /me"@, sent) {
            Ok(body) => {
                &&& next matches WhoAmIState::Reply(text) && text@ == body
                &&& action matches WhoAmIAction::Parse(text) && text@ == body
            },
            Err(e) => who_ends(next, action, "/me FAILED: "@ + e),
        },
        (WhoAmIState::Reply(body), WhoAmIEvent::Reply(reply)) => match named_user(body@, reply) {
            Ok(user) => who_ends(
                next,
                action,
                who_note(user, debug_text(opt_view(user.name)), debug_text(opt_view(user.role))),
            ),
            Err(e) => who_ends(next, action, "/me FAILED: "@ + e),
        },
        _ => false,
    }
}

/// Starts asking who is signed in.
pub fn start_who_am_i() -> (r: (WhoAmIState, WhoAmIAction))
    ensures
        r.0 is Credentials,
        r.1 is ReadCredentials,
{
    (WhoAmIState::Credentials, WhoAmIAction::ReadCredentials)
}

/// Ends with a note.
fn end_who_am_i(note: String) -> (r: (WhoAmIState, WhoAmIAction))
    ensures
        who_ends(r.0, r.1, note@),
{
    (WhoAmIState::Done, WhoAmIAction::Finish(note))
}

/// Goes on with the question when what it waits for has come.
pub fn who_am_i_step(state: WhoAmIState, event: WhoAmIEvent) -> (r: (WhoAmIState, WhoAmIAction))
    requires
        who_awaited(state, event),
    ensures
        who_leads(state, event, r.0, r.1),
{
    match (state, event) {
        (WhoAmIState::Credentials, WhoAmIEvent::Credentials(credentials)) => match token_of(
            credentials,
        ) {
            Token::Unreadable(e) => end_who_am_i(
                "keychain read FAILED: ".to_string().concat(e.as_str()),
            ),
            Token::Absent => end_who_am_i("no JWT in keychain (sign in first)".to_string()),
            Token::Garbled(e) => end_who_am_i(
                "JWT not valid UTF-8: ".to_string().concat(e.as_str()),
            ),
            Token::Present(jwt) => (
                WhoAmIState::Answer,
                WhoAmIAction::Send(me_request(jwt.as_str())),
            ),
        },
        (WhoAmIState::Answer, WhoAmIEvent::Answer(sent)) => match me_outcome(sent) {
            Ok(body) => (WhoAmIState::Reply(body.clone()), WhoAmIAction::Parse(body)),
            Err(e) => end_who_am_i("/me FAILED: ".to_string().concat(e.as_str())),
        },
        (WhoAmIState::Reply(body), WhoAmIEvent::Reply(reply)) => match user_of(
            body.as_str(),
            reply,
        ) {
            Ok(user) => {
                let name = written_for_debug(&user.name);
                let role = written_for_debug(&user.role);
                end_who_am_i(who_note_with(&user, name.as_str(), role.as_str()))
            },
            Err(e) => end_who_am_i("/me FAILED: ".to_string().concat(e.as_str())),
        },
        // Nothing else is awaited.
        (state, _) => (state, WhoAmIAction::ReadCredentials),
    }
}

// ---------------------------------------------------------------------------
// Laws
// ---------------------------------------------------------------------------

/// One way that signing in may go: the states it goes through, what came to
/// each of them, and what was done on reaching it.
pub open spec fn sign_in_run(
    states: Seq<SignInState>,
    events: Seq<SignInEvent>,
    actions: Seq<SignInAction>,
) -> bool {
    &&& states.len() == events.len() + 1
    &&& actions.len() == states.len()
    &&& states[0] is File
    &&& actions[0] is ReadFile
    &&& forall|i: int|
        0 <= i < events.len() ==> sign_in_awaited(states[i], #[trigger] events[i]) && sign_in_leads(
            states[i],
            events[i],
            states[i + 1],
            actions[i + 1],
        )
}

/// Where signing in is by its length, and with which token.
proof fn lemma_sign_in_run(
    states: Seq<SignInState>,
    events: Seq<SignInEvent>,
    actions: Seq<SignInAction>,
    k: int,
)
    requires
        sign_in_run(states, events, actions),
        0 <= k < states.len(),
    ensures
        states[k] is File ==> k == 0,
        states[k] matches SignInState::Answer(jwt) ==> k == 1 && (
        events[0] matches SignInEvent::File(Ok(text)) && jwt@ == trimmed(text@) && jwt@.len() > 0)
            && (actions[1] matches SignInAction::Send { request, trace: _ } && request@.headers[0] == bearer(
            jwt@,
        )),
        states[k] matches SignInState::Reply(jwt, body) ==> k == 2 && (
        events[0] matches SignInEvent::File(Ok(text)) && jwt@ == trimmed(text@) && jwt@.len() > 0)
            && (actions[1] matches SignInAction::Send { request, trace: _ } && request@.headers[0] == bearer(
            jwt@,
        )) && (events[1] matches SignInEvent::Answer(sent) && fetched("BFF /me"@, sent) == Ok::<
            Seq<char>,
            Seq<char>,
        >(body@)),
        states[k] is Stored ==> k == 3,
        k <= 4,
        states[k] is Done || k <= 3,
    decreases k,
{
    if k > 0 {
        lemma_sign_in_run(states, events, actions, k - 1);
        assert(sign_in_awaited(states[k - 1], events[k - 1]));
        assert(sign_in_leads(states[k - 1], events[k - 1], states[k], actions[k]));
    }
}

/// A token is stored only after the gateway was asked with that very token,
/// answered with success, and named a user; and what is stored is what the
/// file holds, without the white space around it.
pub proof fn law_only_accepted_token_is_stored(
    states: Seq<SignInState>,
    events: Seq<SignInEvent>,
    actions: Seq<SignInAction>,
    k: int,
    jwt: String,
    trace: String,
)
    requires
        sign_in_run(states, events, actions),
        0 <= k < actions.len(),
        actions[k] == (SignInAction::Store { jwt, trace }),
    ensures
        k == 3,
        events[0] matches SignInEvent::File(Ok(text)) && jwt@ == trimmed(text@) && jwt@.len() > 0,
        actions[1] matches SignInAction::Send { request, trace: _ } && request@.headers[0] == bearer(jwt@),
        events[1] matches SignInEvent::Answer(sent) && fetched("BFF /me"@, sent) is Ok,
        events[2] matches SignInEvent::Reply(MeReply::Response(Some(_))),
{
    lemma_sign_in_run(states, events, actions, k - 1);
    assert(sign_in_awaited(states[k - 1], events[k - 1]));
    assert(sign_in_leads(states[k - 1], events[k - 1], states[k], actions[k]));
}

/// Signing in comes to an end after four events at most.
pub proof fn law_sign_in_ends(
    states: Seq<SignInState>,
    events: Seq<SignInEvent>,
    actions: Seq<SignInAction>,
)
    requires
        sign_in_run(states, events, actions),
    ensures
        events.len() <= 4,
        events.len() == 4 ==> states[4] is Done,
{
    lemma_sign_in_run(states, events, actions, states.len() - 1);
}

/// Signing in reads the token from the file, without the white space around it,
/// and asks the gateway with it who the user is. An empty file and one that
/// could not be read end it.
pub proof fn law_sign_in_asks_with_the_token(
    text: String,
    error: String,
    next: SignInState,
    action: SignInAction,
)
    ensures
        sign_in_leads(SignInState::File, SignInEvent::File(Err(error)), next, action)
            ==> next is Done && (action matches SignInAction::Finish(note) && note@ == "read "@
            + JWT_FILE@ + " FAILED: "@ + error@),
        trimmed(text@).len() == 0 && sign_in_leads(
            SignInState::File,
            SignInEvent::File(Ok(text)),
            next,
            action,
        ) ==> next is Done && (action matches SignInAction::Finish(note) && note@
            == "JWT file empty"@),
        trimmed(text@).len() > 0 && sign_in_leads(
            SignInState::File,
            SignInEvent::File(Ok(text)),
            next,
            action,
        ) ==> (next matches SignInState::Answer(jwt) && jwt@ == trimmed(text@)) && (
        action matches SignInAction::Send { request, trace } && {
            &&& request@.method == Method::Get
            &&& request@.url == "https://wolfcode-bff.quake0day.workers.dev/me"@
            &&& request@.headers == seq![("Authorization"@, "Bearer "@ + trimmed(text@))]
            &&& request@.body is None
            &&& trace@ == "read JWT ("@ + decimal(encode_utf8(trimmed(text@)).len()) + " chars)"@
        }),
{
    lemma_me_url();
}

/// Where the gateway is asked who a token belongs to.
proof fn lemma_me_url()
    ensures
        BFF_URL@ + "/me"@ == "https://wolfcode-bff.quake0day.workers.dev/me"@,
{
    reveal_strlit("https://wolfcode-bff.quake0day.workers.dev");
    reveal_strlit("/me");
    reveal_strlit("https://wolfcode-bff.quake0day.workers.dev/me");
    assert(BFF_URL@ + "/me"@ =~= "https://wolfcode-bff.quake0day.workers.dev/me"@);
}

/// A token that the gateway accepts is stored: where it answers with a status in
/// the two hundreds, and the text of the answer names a user, the very token
/// that was asked with goes into the keychain. Any other answer ends signing in
/// with a note of what is wrong.
pub proof fn law_accepted_token_is_stored(
    jwt: String,
    status: u16,
    shown: String,
    text: String,
    user: UserInfo,
    error: String,
    next: SignInState,
    action: SignInAction,
)
    ensures
        200 <= status <= 299 && sign_in_leads(
            SignInState::Answer(jwt),
            SignInEvent::Answer(Sent::Answered { status, shown, body: Body::Whole(text) }),
            next,
            action,
        ) ==> (next matches SignInState::Reply(same, body) && same == jwt && body@ == text@) && (
        action matches SignInAction::Parse(body) && body@ == text@),
        !(200 <= status <= 299) && sign_in_leads(
            SignInState::Answer(jwt),
            SignInEvent::Answer(Sent::Answered { status, shown, body: Body::Whole(text) }),
            next,
            action,
        ) ==> next is Done && (action matches SignInAction::Finish(note) && note@ == "/me FAILED: "@
            + ("BFF /me"@ + " returned "@ + shown@ + ": "@ + text@)),
        sign_in_leads(
            SignInState::Answer(jwt),
            SignInEvent::Answer(Sent::Failed(error)),
            next,
            action,
        ) ==> next is Done && (action matches SignInAction::Finish(note) && note@ == "/me FAILED: "@
            + error@),
        sign_in_leads(
            SignInState::Answer(jwt),
            SignInEvent::Answer(Sent::Unmade(error)),
            next,
            action,
        ) ==> next is Done && (action matches SignInAction::Finish(note) && note@ == "/me FAILED: "@
            + error@),
        sign_in_leads(
            SignInState::Answer(jwt),
            SignInEvent::Answer(
                Sent::Answered { status, shown, body: Body::Broken { partial: text, error } },
            ),
            next,
            action,
        ) ==> next is Done && action is Finish,
        sign_in_leads(
            SignInState::Reply(jwt, text),
            SignInEvent::Reply(MeReply::Response(Some(user))),
            next,
            action,
        ) ==> next is Stored && (action matches SignInAction::Store { jwt: token, trace } && token
            == jwt && trace@ == "/me OK: id="@ + user.id@ + " email="@ + user.email@),
        sign_in_leads(
            SignInState::Reply(jwt, text),
            SignInEvent::Reply(MeReply::Response(None)),
            next,
            action,
        ) ==> next is Done && (action matches SignInAction::Finish(note) && note@ == "/me FAILED: "@
            + ("/me response missing `user` field: "@ + text@)),
        sign_in_leads(
            SignInState::Reply(jwt, text),
            SignInEvent::Reply(MeReply::Invalid),
            next,
            action,
        ) ==> next is Done && (action matches SignInAction::Finish(note) && note@ == "/me FAILED: "@
            + ("invalid /me response body: "@ + text@)),
        sign_in_leads(SignInState::Stored, SignInEvent::Stored(Ok(())), next, action)
            ==> next is Done && (action matches SignInAction::Finish(note) && note@
            == "JWT stored in keychain"@),
        sign_in_leads(SignInState::Stored, SignInEvent::Stored(Err(error)), next, action)
            ==> next is Done && (action matches SignInAction::Finish(note) && note@
            == "keychain write FAILED: "@ + error@),
{
}

/// The user that an answer names is the one that it holds; an answer without one
/// and one that is not understood are told with their text.
pub proof fn law_answer_names_the_user(body: Seq<char>, user: UserInfo)
    ensures
        named_user(body, MeReply::Response(Some(user))) == Ok::<UserInfo, Seq<char>>(user),
        named_user(body, MeReply::Response(None)) == Err::<UserInfo, Seq<char>>(
            "/me response missing `user` field: "@ + body,
        ),
        named_user(body, MeReply::Invalid) == Err::<UserInfo, Seq<char>>(
            "invalid /me response body: "@ + body,
        ),
{
}

/// Who is signed in is asked with the token of the keychain; where there is none
/// that can be read, that is noted.
pub proof fn law_who_am_i_asks_with_the_token(
    bytes: Vec<u8>,
    error: String,
    next: WhoAmIState,
    action: WhoAmIAction,
)
    ensures
        who_leads(
            WhoAmIState::Credentials,
            WhoAmIEvent::Credentials(Credentials::Unreadable(error)),
            next,
            action,
        ) ==> next is Done && (action matches WhoAmIAction::Finish(note) && note@
            == "keychain read FAILED: "@ + error@),
        who_leads(
            WhoAmIState::Credentials,
            WhoAmIEvent::Credentials(Credentials::Absent),
            next,
            action,
        ) ==> next is Done && (action matches WhoAmIAction::Finish(note) && note@
            == "no JWT in keychain (sign in first)"@),
        !valid_utf8(bytes@) && who_leads(
            WhoAmIState::Credentials,
            WhoAmIEvent::Credentials(Credentials::Stored(bytes)),
            next,
            action,
        ) ==> next is Done && (action matches WhoAmIAction::Finish(note) && note@
            == "JWT not valid UTF-8: "@ + utf8_fault(bytes@)),
        valid_utf8(bytes@) && who_leads(
            WhoAmIState::Credentials,
            WhoAmIEvent::Credentials(Credentials::Stored(bytes)),
            next,
            action,
        ) ==> next is Answer && (action matches WhoAmIAction::Send(request) && {
            &&& request@.method == Method::Get
            &&& request@.url == "https://wolfcode-bff.quake0day.workers.dev/me"@
            &&& request@.headers == seq![("Authorization"@, "Bearer "@ + decode_utf8(bytes@))]
            &&& request@.body is None
        }),
{
    lemma_me_url();
}

/// Who is signed in is noted where the gateway answers with a status in the two
/// hundreds and names a user: the id, the address, the name and the role. Any
/// other answer is noted with what is wrong.
pub proof fn law_who_am_i_names_the_user(
    status: u16,
    shown: String,
    text: String,
    user: UserInfo,
    error: String,
    next: WhoAmIState,
    action: WhoAmIAction,
)
    ensures
        200 <= status <= 299 && who_leads(
            WhoAmIState::Answer,
            WhoAmIEvent::Answer(Sent::Answered { status, shown, body: Body::Whole(text) }),
            next,
            action,
        ) ==> (next matches WhoAmIState::Reply(body) && body@ == text@) && (
        action matches WhoAmIAction::Parse(body) && body@ == text@),
        !(200 <= status <= 299) && who_leads(
            WhoAmIState::Answer,
            WhoAmIEvent::Answer(Sent::Answered { status, shown, body: Body::Whole(text) }),
            next,
            action,
        ) ==> next is Done && (action matches WhoAmIAction::Finish(note) && note@ == "/me FAILED: "@
            + ("BFF /me"@ + " returned "@ + shown@ + ": "@ + text@)),
        who_leads(
            WhoAmIState::Answer,
            WhoAmIEvent::Answer(Sent::Failed(error)),
            next,
            action,
        ) ==> next is Done && (action matches WhoAmIAction::Finish(note) && note@ == "/me FAILED: "@
            + error@),
        who_leads(
            WhoAmIState::Answer,
            WhoAmIEvent::Answer(Sent::Unmade(error)),
            next,
            action,
        ) ==> next is Done && (action matches WhoAmIAction::Finish(note) && note@ == "/me FAILED: "@
            + error@),
        who_leads(
            WhoAmIState::Answer,
            WhoAmIEvent::Answer(
                Sent::Answered { status, shown, body: Body::Broken { partial: text, error } },
            ),
            next,
            action,
        ) ==> next is Done && action is Finish,
        who_leads(
            WhoAmIState::Reply(text),
            WhoAmIEvent::Reply(MeReply::Response(Some(user))),
            next,
            action,
        ) ==> next is Done && (action matches WhoAmIAction::Finish(note) && note@ == "OK: id="@
            + user.id@ + " email="@ + user.email@ + " name="@ + debug_text(opt_view(user.name))
            + " role="@ + debug_text(opt_view(user.role))),
        who_leads(
            WhoAmIState::Reply(text),
            WhoAmIEvent::Reply(MeReply::Response(None)),
            next,
            action,
        ) ==> next is Done && (action matches WhoAmIAction::Finish(note) && note@ == "/me FAILED: "@
            + ("/me response missing `user` field: "@ + text@)),
        who_leads(
            WhoAmIState::Reply(text),
            WhoAmIEvent::Reply(MeReply::Invalid),
            next,
            action,
        ) ==> next is Done && (action matches WhoAmIAction::Finish(note) && note@ == "/me FAILED: "@
            + ("invalid /me response body: "@ + text@)),
{
}

/// Signing in waits for the file, the answer, what its text says and the
/// keychain, in turn; asking who is signed in for the token, the answer and what
/// its text says. Neither waits for anything when it is done.
pub proof fn law_signing_in_waits_in_turn(
    jwt: String,
    body: String,
    event: SignInEvent,
    other: WhoAmIEvent,
)
    ensures
        sign_in_awaited(SignInState::File, event) <==> event is File,
        sign_in_awaited(SignInState::Answer(jwt), event) <==> event is Answer,
        sign_in_awaited(SignInState::Reply(jwt, body), event) <==> event is Reply,
        sign_in_awaited(SignInState::Stored, event) <==> event is Stored,
        !sign_in_awaited(SignInState::Done, event),
        who_awaited(WhoAmIState::Credentials, other) <==> other is Credentials,
        who_awaited(WhoAmIState::Answer, other) <==> other is Answer,
        who_awaited(WhoAmIState::Reply(body), other) <==> other is Reply,
        !who_awaited(WhoAmIState::Done, other),
{
}

} // verus!
