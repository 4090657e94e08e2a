//! Talking to the WolfCode gateway: the requests it takes, the token that opens
//! it, and what its answers come to.

use crate::events::{
    all_tidy, batch_body, batch_tree, paste_batch, paste_trees, question_body, question_tree,
    submission_body, submission_tree, PasteRecord,
};
use crate::json::{json_text, trees, Json, JsonTree};
use crate::text::decimal;
use crate::urls::{url_encoded, urlencoding_minimal};
use vstd::prelude::*;
use vstd::utf8::{decode_utf8, valid_utf8};

verus! {

/// Where the gateway is, and the name under which its token is stored.
pub const BFF_URL: &'static str = "https://wolfcode-bff.quake0day.workers.dev";

// ---------------------------------------------------------------------------
// Requests
// ---------------------------------------------------------------------------

/// How a request is made.
#[derive(Clone, Copy, PartialEq, Eq, Structural)]
pub enum Method {
    Get,
    Post,
}

/// A request to the gateway.
pub struct Request {
    pub method: Method,
    pub url: String,
    pub headers: Vec<(String, String)>,
    /// What is sent along, if anything.
    pub body: Option<String>,
}

/// A request as text.
pub ghost struct RequestView {
    pub method: Method,
    pub url: Seq<char>,
    pub headers: Seq<(Seq<char>, Seq<char>)>,
    pub body: Option<Seq<char>>,
}

impl View for Request {
    type V = RequestView;

    open spec fn view(&self) -> RequestView {
        RequestView {
            method: self.method,
            url: self.url@,
            headers: Seq::new(
                self.headers@.len(),
                |i: int| (self.headers@[i].0@, self.headers@[i].1@),
            ),
            body: match self.body {
                Some(body) => Some(body@),
                None => None,
            },
        }
    }
}

/// The header that carries the token.
pub open spec fn bearer(jwt: Seq<char>) -> (Seq<char>, Seq<char>) {
    ("Authorization"@, "Bearer "@ + jwt)
}

/// The request that fetches `path`.
pub open spec fn get_view(path: Seq<char>, jwt: Seq<char>) -> RequestView {
    RequestView {
        method: Method::Get,
        url: BFF_URL@ + path,
        headers: seq![bearer(jwt)],
        body: None,
    }
}

/// The request that sends a JSON value to `path`.
pub open spec fn post_view(path: Seq<char>, jwt: Seq<char>, body: JsonTree) -> RequestView {
    RequestView {
        method: Method::Post,
        url: BFF_URL@ + path,
        headers: seq![bearer(jwt), ("Content-Type"@, "application/json"@)],
        body: Some(json_text(body)),
    }
}

/// The header that carries the token.
fn bearer_header(jwt: &str) -> (r: (String, String))
    ensures
        (r.0@, r.1@) == bearer(jwt@),
{
    ("Authorization".to_string(), "Bearer ".to_string().concat(jwt))
}

/// The request that fetches `path`.
fn get_request(path: &str, jwt: &str) -> (r: Request)
    ensures
        r@ == get_view(path@, jwt@),
{
    let mut headers: Vec<(String, String)> = Vec::new();
    headers.push(bearer_header(jwt));
    let r = Request {
        method: Method::Get,
        url: BFF_URL.to_string().concat(path),
        headers,
        body: None,
    };
    assert(r@.headers =~= get_view(path@, jwt@).headers);
    r
}

/// The request that sends a JSON text to `path`.
fn post_request(path: &str, jwt: &str, body: String) -> (r: Request)
    ensures
        r@ == (RequestView {
            method: Method::Post,
            url: BFF_URL@ + path@,
            headers: seq![bearer(jwt@), ("Content-Type"@, "application/json"@)],
            body: Some(body@),
        }),
{
    let mut headers: Vec<(String, String)> = Vec::new();
    headers.push(bearer_header(jwt));
    headers.push(("Content-Type".to_string(), "application/json".to_string()));
    let r = Request {
        method: Method::Post,
        url: BFF_URL.to_string().concat(path),
        headers,
        body: Some(body),
    };
    assert(r@.headers =~= seq![bearer(jwt@), ("Content-Type"@, "application/json"@)]);
    r
}

/// Asks who the token belongs to.
pub fn me_request(jwt: &str) -> (r: Request)
    ensures
        r@ == get_view("/me"@, jwt@),
{
    get_request("/me", jwt)
}

/// Asks how far the student has come with each lesson.
pub fn lesson_status_request(jwt: &str) -> (r: Request)
    ensures
        r@ == get_view("/reports/me/lesson-status"@, jwt@),
{
    get_request("/reports/me/lesson-status", jwt)
}

/// Hands a solution in.
pub fn submission_request(
    jwt: &str,
    lesson_id: &str,
    course_id: &str,
    rel_path: &str,
    content: &str,
) -> (r: Request)
    ensures
        r@ == post_view(
            "/submissions/"@ + url_encoded(lesson_id@),
            jwt@,
            submission_tree(content@, course_id@, rel_path@),
        ),
{
    let path = "/submissions/".to_string().concat(urlencoding_minimal(lesson_id).as_str());
    post_request(path.as_str(), jwt, submission_body(content, course_id, rel_path))
}

/// Reports events.
pub fn events_request(jwt: &str, session_id: &str, events: Vec<Json>) -> (r: Request)
    requires
        all_tidy(trees(events@)),
    ensures
        r@ == post_view("/events/batch"@, jwt@, batch_tree(session_id@, trees(events@))),
{
    post_request("/events/batch", jwt, batch_body(session_id, events))
}

/// The request that reports pastes.
pub open spec fn paste_view(
    records: Seq<PasteRecord>,
    jwt: Seq<char>,
    lesson_id: Seq<char>,
    course_id: Seq<char>,
) -> RequestView {
    post_view(
        "/events/batch"@,
        jwt,
        batch_tree(
            "paste-"@ + decimal(records[0].ts_ms as nat),
            paste_trees(records, lesson_id, course_id),
        ),
    )
}

/// The request that reports the pastes of a log; there is none where nothing was
/// pasted.
pub open spec fn flush_view(
    records: Seq<PasteRecord>,
    jwt: Seq<char>,
    lesson_id: Seq<char>,
    course_id: Seq<char>,
) -> Option<RequestView> {
    if records.len() == 0 {
        None
    } else {
        Some(paste_view(records, jwt, lesson_id, course_id))
    }
}

/// Reports the pastes that were logged, under a lesson; nothing is sent where
/// nothing was pasted.
pub fn paste_request(
    records: &Vec<PasteRecord>,
    jwt: &str,
    lesson_id: &str,
    course_id: &str,
) -> (r: Option<Request>)
    ensures
        match flush_view(records@, jwt@, lesson_id@, course_id@) {
            Some(view) => r matches Some(request) && request@ == view,
            None => r is None,
        },
{
    match paste_batch(records, lesson_id, course_id) {
        Some((session_id, events)) => Some(events_request(jwt, session_id.as_str(), events)),
        None => None,
    }
}

/// The request that puts a question to the tutor, and asks for the answer as a
/// stream of events.
pub open spec fn tutor_view(
    jwt: Seq<char>,
    lesson_id: Seq<char>,
    level: Seq<char>,
    question: Seq<char>,
    code: Seq<char>,
) -> RequestView {
    let posted = post_view("/tutor/chat"@, jwt, question_tree(lesson_id, level, question, code));
    RequestView { headers: posted.headers.push(("Accept"@, "text/event-stream"@)), ..posted }
}

/// Puts a question to the tutor.
pub fn tutor_request(
    jwt: &str,
    lesson_id: &str,
    level: &str,
    user_question: &str,
    current_code: &str,
) -> (r: Request)
    ensures
        r@ == tutor_view(jwt@, lesson_id@, level@, user_question@, current_code@),
{
    let body = question_body(lesson_id, level, user_question, current_code);
    let mut r = post_request("/tutor/chat", jwt, body);
    let ghost before = r@;
    r.headers.push(("Accept".to_string(), "text/event-stream".to_string()));
    assert(r@.headers =~= before.headers.push(("Accept"@, "text/event-stream"@)));
    r
}

// ---------------------------------------------------------------------------
// Answers
// ---------------------------------------------------------------------------

/// The body of an answer.
#[derive(Clone)]
pub enum Body {
    /// It was read to its end.
    Whole(String),
    /// Reading it failed; this much had come.
    Broken { partial: String, error: String },
}

/// What came of a request.
#[derive(Clone)]
pub enum Sent {
    /// It could not be made.
    Unmade(String),
    /// It could not be sent.
    Failed(String),
    /// The gateway answered, with a status code that is shown as `shown`.
    Answered { status: u16, shown: String, body: Body },
}

/// Whether a status code means success.
pub open spec fn is_success(status: u16) -> bool {
    200 <= status < 300
}

/// The text of what was done, or of what went wrong.
pub open spec fn outcome_view(r: Result<String, String>) -> Result<Seq<char>, Seq<char>> {
    match r {
        Ok(s) => Ok(s@),
        Err(e) => Err(e@),
    }
}

/// How an answer that means no success is told.
pub open spec fn refused(what: Seq<char>, shown: Seq<char>, body: Seq<char>) -> Seq<char> {
    what + " returned "@ + shown + ": "@ + body
}

/// What comes of a request to an endpoint that answers with a text worth
/// having whatever its status: reading the text comes first.
pub open spec fn posted(what: Seq<char>, sent: Sent) -> Result<Seq<char>, Seq<char>> {
    match sent {
        Sent::Unmade(error) => Err(error@),
        Sent::Failed(error) => Err(error@),
        Sent::Answered { status, shown, body } => match body {
            Body::Broken { partial, error } => Err(error@),
            Body::Whole(text) => if is_success(status) {
                Ok(text@)
            } else {
                Err(refused(what, shown@, text@))
            },
        },
    }
}

/// What comes of a request to an endpoint whose text only matters on success:
/// the status comes first, and a refusal is told with as much text as came.
pub open spec fn fetched(what: Seq<char>, sent: Sent) -> Result<Seq<char>, Seq<char>> {
    match sent {
        Sent::Unmade(error) => Err(error@),
        Sent::Failed(error) => Err(error@),
        Sent::Answered { status, shown, body } => match body {
            Body::Broken { partial, error } => if is_success(status) {
                Err(error@)
            } else {
                Err(refused(what, shown@, partial@))
            },
            Body::Whole(text) => if is_success(status) {
                Ok(text@)
            } else {
                Err(refused(what, shown@, text@))
            },
        },
    }
}

/// How an answer that means no success is told.
fn refusal(what: &str, shown: &str, body: &str) -> (r: String)
    ensures
        r@ == refused(what@, shown@, body@),
{
    let mut r = what.to_string();
    r.append(" returned ");
    r.append(shown);
    r.append(": ");
    r.append(body);
    r
}

/// What came of a request, where reading the text comes before the status.
fn posted_outcome(what: &str, sent: Sent) -> (r: Result<String, String>)
    ensures
        outcome_view(r) == posted(what@, sent),
{
    match sent {
        Sent::Unmade(error) => Err(error),
        Sent::Failed(error) => Err(error),
        Sent::Answered { status, shown, body } => match body {
            Body::Broken { partial: _, error } => Err(error),
            Body::Whole(text) => if 200 <= status && status < 300 {
                Ok(text)
            } else {
                Err(refusal(what, shown.as_str(), text.as_str()))
            },
        },
    }
}

/// What came of a request, where the status comes before reading the text.
fn fetched_outcome(what: &str, sent: Sent) -> (r: Result<String, String>)
    ensures
        outcome_view(r) == fetched(what@, sent),
{
    match sent {
        Sent::Unmade(error) => Err(error),
        Sent::Failed(error) => Err(error),
        Sent::Answered { status, shown, body } => {
            let success = 200 <= status && status < 300;
            match body {
                Body::Broken { partial, error } => if success {
                    Err(error)
                } else {
                    Err(refusal(what, shown.as_str(), partial.as_str()))
                },
                Body::Whole(text) => if success {
                    Ok(text)
                } else {
                    Err(refusal(what, shown.as_str(), text.as_str()))
                },
            }
        },
    }
}

/// What came of handing a solution in: the reply, or what went wrong.
pub fn submission_outcome(sent: Sent) -> (r: Result<String, String>)
    ensures
        outcome_view(r) == posted("/submissions"@, sent),
{
    posted_outcome("/submissions", sent)
}

/// What came of reporting events: the reply, or what went wrong.
pub fn events_outcome(sent: Sent) -> (r: Result<String, String>)
    ensures
        outcome_view(r) == posted("/events/batch"@, sent),
{
    posted_outcome("/events/batch", sent)
}

/// What comes of reporting so many pastes: how many were reported, or what went
/// wrong. Where nothing was sent, none were.
pub open spec fn flushed(count: nat, sent: Option<Sent>) -> Result<nat, Seq<char>> {
    match sent {
        None => Ok(0),
        Some(sent) => match posted("/events/batch (paste flush)"@, sent) {
            Ok(_) => Ok(count),
            Err(e) => Err(e),
        },
    }
}

/// What came of reporting `count` pastes, where anything was sent.
pub fn paste_outcome(count: usize, sent: Option<Sent>) -> (r: Result<usize, String>)
    ensures
        match flushed(count as nat, sent) {
            Ok(n) => r matches Ok(reported) && reported == n,
            Err(e) => r matches Err(error) && error@ == e,
        },
{
    match sent {
        None => Ok(0),
        Some(sent) => match posted_outcome("/events/batch (paste flush)", sent) {
            Ok(_) => Ok(count),
            Err(error) => Err(error),
        },
    }
}

/// What came of a question to the tutor: the stream of the answer, or what
/// went wrong.
pub fn tutor_outcome(sent: Sent) -> (r: Result<String, String>)
    ensures
        outcome_view(r) == fetched("/tutor/chat"@, sent),
{
    fetched_outcome("/tutor/chat", sent)
}

/// What came of asking who the token belongs to: the text of the answer, or
/// what went wrong.
pub fn me_outcome(sent: Sent) -> (r: Result<String, String>)
    ensures
        outcome_view(r) == fetched("BFF /me"@, sent),
{
    fetched_outcome("BFF /me", sent)
}

/// What came of asking how far the student has come with each lesson.
pub enum StatusReply {
    /// The text that tells it.
    Text(String),
    /// Nothing, which is noted in the trace like this.
    Noted(String),
    /// Nothing, without a note.
    Nothing,
}

/// Whether `reply` is what came of asking how far the student has come.
pub open spec fn status_told(sent: Sent, reply: StatusReply) -> bool {
    match sent {
        Sent::Unmade(_) => reply is Nothing,
        Sent::Failed(_) => reply matches StatusReply::Noted(note) && note@ == "http error"@,
        Sent::Answered { status, shown, body } => if !is_success(status) {
            reply matches StatusReply::Noted(note) && note@ == "status="@ + shown@
        } else {
            match body {
                Body::Whole(text) => reply == StatusReply::Text(text),
                Body::Broken { partial, error } => reply is Nothing,
            }
        },
    }
}

/// What came of asking how far the student has come with each lesson: the
/// text, where the gateway gave it.
pub fn lesson_status_reply(sent: Sent) -> (r: StatusReply)
    ensures
        status_told(sent, r),
{
    match sent {
        Sent::Unmade(_) => StatusReply::Nothing,
        Sent::Failed(_) => StatusReply::Noted("http error".to_string()),
        Sent::Answered { status, shown, body } => if status < 200 || 300 <= status {
            StatusReply::Noted("status=".to_string().concat(shown.as_str()))
        } else {
            match body {
                Body::Whole(text) => StatusReply::Text(text),
                Body::Broken { .. } => StatusReply::Nothing,
            }
        },
    }
}

// ---------------------------------------------------------------------------
// The token
// ---------------------------------------------------------------------------

/// What the keychain has for the gateway.
pub enum Credentials {
    /// The keychain could not be read.
    Unreadable(String),
    /// Nothing is stored.
    Absent,
    /// These bytes are stored.
    Stored(Vec<u8>),
}

/// The token, as far as there is one.
pub enum Token {
    /// The keychain could not be read.
    Unreadable(String),
    /// Nothing is stored.
    Absent,
    /// What is stored is no text.
    Garbled(String),
    /// The token.
    Present(String),
}

/// What is wrong with bytes that are no UTF-8, as `FromUtf8Error` tells it.
pub uninterp spec fn utf8_fault(bytes: Seq<u8>) -> Seq<char>;

/// `String::from_utf8` gives the text that bytes encode, where they are valid
/// UTF-8, and else an error. Nothing is said here of the words of the error
/// beyond that they are a function of the bytes.
#[verifier::external_body]
fn text_of_bytes(bytes: Vec<u8>) -> (r: Result<String, String>)
    ensures
        match r {
            Ok(s) => valid_utf8(bytes@) && s@ == decode_utf8(bytes@),
            Err(e) => !valid_utf8(bytes@) && e@ == utf8_fault(bytes@),
        },
{
    match String::from_utf8(bytes) {
        Ok(s) => Ok(s),
        Err(e) => Err(e.to_string()),
    }
}

/// The token that the keychain has.
pub fn token_of(credentials: Credentials) -> (token: Token)
    ensures
        match credentials {
            Credentials::Unreadable(error) => token == Token::Unreadable(error),
            Credentials::Absent => token is Absent,
            Credentials::Stored(bytes) => if valid_utf8(bytes@) {
                token matches Token::Present(jwt) && jwt@ == decode_utf8(bytes@)
            } else {
                token matches Token::Garbled(error) && error@ == utf8_fault(bytes@)
            },
        },
{
    match credentials {
        Credentials::Unreadable(error) => Token::Unreadable(error),
        Credentials::Absent => Token::Absent,
        Credentials::Stored(bytes) => match text_of_bytes(bytes) {
            Ok(jwt) => Token::Present(jwt),
            Err(error) => Token::Garbled(error),
        },
    }
}

// ---------------------------------------------------------------------------
// Laws
// ---------------------------------------------------------------------------

/// An answer that means no success is never taken for one, and its status and
/// text are told.
pub proof fn law_refusal_is_an_error(what: Seq<char>, status: u16, shown: String, text: String)
    requires
        !is_success(status),
    ensures
        ({
            let sent = Sent::Answered { status, shown, body: Body::Whole(text) };
            &&& posted(what, sent) == Err::<Seq<char>, Seq<char>>(refused(what, shown@, text@))
            &&& fetched(what, sent) == Err::<Seq<char>, Seq<char>>(refused(what, shown@, text@))
        }),
{
}

/// The report of what was pasted since an earlier report speaks of that alone;
/// where nothing was, nothing is sent and none are reported. The two reports
/// hold, one after the other, the events of all that was pasted: each paste
/// once, in its order.
pub proof fn law_pastes_are_reported_once(
    before: Seq<PasteRecord>,
    since: Seq<PasteRecord>,
    jwt: Seq<char>,
    lesson_id: Seq<char>,
    course_id: Seq<char>,
)
    ensures
        since.len() == 0 ==> flush_view(since, jwt, lesson_id, course_id) is None,
        since.len() == 0 ==> flushed(since.len(), None) == Ok::<nat, Seq<char>>(0),
        since.len() > 0 ==> flush_view(since, jwt, lesson_id, course_id) == Some(
            paste_view(since, jwt, lesson_id, course_id),
        ),
        paste_trees(before + since, lesson_id, course_id) == paste_trees(
            before,
            lesson_id,
            course_id,
        ) + paste_trees(since, lesson_id, course_id),
{
    assert(paste_trees(before + since, lesson_id, course_id) =~= paste_trees(
        before,
        lesson_id,
        course_id,
    ) + paste_trees(since, lesson_id, course_id));
}

/// Every request goes to the gateway, with the token. One that fetches something
/// sends nothing along; one that sends something sends it as JSON.
pub proof fn law_requests_carry_the_token(path: Seq<char>, jwt: Seq<char>, body: JsonTree)
    ensures
        get_view(path, jwt).method == Method::Get,
        get_view(path, jwt).url == "https://wolfcode-bff.quake0day.workers.dev"@ + path,
        get_view(path, jwt).headers == seq![("Authorization"@, "Bearer "@ + jwt)],
        get_view(path, jwt).body is None,
        post_view(path, jwt, body).method == Method::Post,
        post_view(path, jwt, body).url == "https://wolfcode-bff.quake0day.workers.dev"@ + path,
        post_view(path, jwt, body).headers == seq![
            ("Authorization"@, "Bearer "@ + jwt),
            ("Content-Type"@, "application/json"@),
        ],
        post_view(path, jwt, body).body == Some(json_text(body)),
{
}

/// A request has come through exactly where the gateway answered with a status
/// in the two hundreds and the whole text came; that text is then the outcome.
/// Any other status is told, with the text; a fault on the way is told as it is.
pub proof fn law_success_is_in_the_two_hundreds(
    what: Seq<char>,
    status: u16,
    shown: String,
    text: String,
    error: String,
)
    ensures
        ({
            let whole = Sent::Answered { status, shown, body: Body::Whole(text) };
            let broken = Sent::Answered {
                status,
                shown,
                body: Body::Broken { partial: text, error },
            };
            let told = Err::<Seq<char>, Seq<char>>(
                what + " returned "@ + shown@ + ": "@ + text@,
            );
            let fault = Err::<Seq<char>, Seq<char>>(error@);
            &&& 200 <= status <= 299 ==> posted(what, whole) == Ok::<Seq<char>, Seq<char>>(text@)
            &&& 200 <= status <= 299 ==> fetched(what, whole) == Ok::<Seq<char>, Seq<char>>(text@)
            &&& !(200 <= status <= 299) ==> posted(what, whole) == told
            &&& !(200 <= status <= 299) ==> fetched(what, whole) == told
            &&& posted(what, broken) == fault
            &&& 200 <= status <= 299 ==> fetched(what, broken) == fault
            &&& !(200 <= status <= 299) ==> fetched(what, broken) == told
            &&& posted(what, Sent::Failed(error)) == fault
            &&& fetched(what, Sent::Failed(error)) == fault
            &&& posted(what, Sent::Unmade(error)) == fault
            &&& fetched(what, Sent::Unmade(error)) == fault
        }),
{
}

/// How far the student has come is told by the text of an answer with a status
/// in the two hundreds, where all of it came. Any other status is noted, and so
/// is a request that could not be sent; the rest goes without a note.
pub proof fn law_marks_need_success(
    status: u16,
    shown: String,
    text: String,
    error: String,
    reply: StatusReply,
)
    ensures
        200 <= status <= 299 && status_told(
            Sent::Answered { status, shown, body: Body::Whole(text) },
            reply,
        ) ==> reply == StatusReply::Text(text),
        200 <= status <= 299 && status_told(
            Sent::Answered { status, shown, body: Body::Broken { partial: text, error } },
            reply,
        ) ==> reply is Nothing,
        !(200 <= status <= 299) && status_told(
            Sent::Answered { status, shown, body: Body::Whole(text) },
            reply,
        ) ==> (reply matches StatusReply::Noted(note) && note@ == "status="@ + shown@),
        !(200 <= status <= 299) && status_told(
            Sent::Answered { status, shown, body: Body::Broken { partial: text, error } },
            reply,
        ) ==> (reply matches StatusReply::Noted(note) && note@ == "status="@ + shown@),
        status_told(Sent::Failed(error), reply) ==> (reply matches StatusReply::Noted(note) && note@
            == "http error"@),
        status_told(Sent::Unmade(error), reply) ==> reply is Nothing,
{
}

/// The report of pastes goes to the gateway as a batch of their events, in a
/// session named after the time of the first of them. So many are reported as
/// there are, where it came through.
pub proof fn law_paste_report_says_all(
    records: Seq<PasteRecord>,
    jwt: Seq<char>,
    lesson_id: Seq<char>,
    course_id: Seq<char>,
    sent: Sent,
)
    requires
        records.len() > 0,
    ensures
        flush_view(records, jwt, lesson_id, course_id) matches Some(request) && {
            &&& request.method == Method::Post
            &&& request.url == "https://wolfcode-bff.quake0day.workers.dev/events/batch"@
            &&& request.headers == seq![
                ("Authorization"@, "Bearer "@ + jwt),
                ("Content-Type"@, "application/json"@),
            ]
            &&& request.body == Some(
                json_text(
                    JsonTree::Object(
                        seq![
                            (
                                "session_id"@,
                                JsonTree::Text("paste-"@ + decimal(records[0].ts_ms as nat)),
                            ),
                            (
                                "events"@,
                                JsonTree::Array(paste_trees(records, lesson_id, course_id)),
                            ),
                        ],
                    ),
                ),
            )
        },
        posted("/events/batch (paste flush)"@, sent) is Ok ==> flushed(records.len(), Some(sent))
            == Ok::<nat, Seq<char>>(records.len()),
        posted("/events/batch (paste flush)"@, sent) matches Err(e) ==> flushed(
            records.len(),
            Some(sent),
        ) == Err::<nat, Seq<char>>(e),
{
    reveal_strlit("https://wolfcode-bff.quake0day.workers.dev");
    reveal_strlit("/events/batch");
    reveal_strlit("https://wolfcode-bff.quake0day.workers.dev/events/batch");
    assert(BFF_URL@ + "/events/batch"@
        =~= "https://wolfcode-bff.quake0day.workers.dev/events/batch"@);
}

} // verus!
