//! Handing a solution in.

use crate::bff::{
    bearer, flush_view, paste_request, paste_view, post_view, posted, submission_outcome,
    submission_request, token_of, utf8_fault, Body, Credentials, Method, Request, Sent, Token,
};
use crate::events::{submission_tree, PasteRecord};
use crate::json::{json_text, JsonTree};
use crate::text::{
    decimal, decimal_text, enclosed, find, law_first_occurrence_is_found, lemma_before_char_is,
    opt_view, take_chars, text_enclosed,
};
use crate::urls::url_encoded;
use vstd::prelude::*;
use vstd::utf8::{decode_utf8, encode_utf8, valid_utf8};

verus! {

// ---------------------------------------------------------------------------
// The reply
// ---------------------------------------------------------------------------

/// What stands before the submission id in a reply.
pub open spec fn id_key() -> Seq<char> {
    "\"submission_id\":\""@
}

/// The id of a submission, from the reply of the gateway: what stands between
/// the first `"submission_id":"` and the next quote.
pub fn parse_submission_id(json: &str) -> (r: Option<String>)
    ensures
        opt_view(r) == enclosed(json@, id_key(), '"'),
{
    text_enclosed(json, "\"submission_id\":\"", '"')
}

/// How many characters of a submission id are shown.
pub const SHOWN_ID_LEN: usize = 8;

/// The start of a submission id, or a question mark where there is none.
pub open spec fn shown_id(id: Option<Seq<char>>) -> Seq<char> {
    match id {
        Some(id) => if id.len() <= SHOWN_ID_LEN {
            id
        } else {
            id.take(SHOWN_ID_LEN as int)
        },
        None => "?"@,
    }
}

/// The start of a submission id, or a question mark where there is none.
fn short_id(id: Option<String>) -> (r: String)
    ensures
        r@ == shown_id(opt_view(id)),
{
    match id {
        Some(id) => take_chars(id.as_str(), SHOWN_ID_LEN),
        None => "?".to_string(),
    }
}

/// What the student is told when a solution was handed in.
pub open spec fn submitted_text(bytes: nat, reply: Seq<char>, lesson_id: Seq<char>) -> Seq<char> {
    "✓ Submitted "@ + decimal(bytes) + " bytes · id="@ + shown_id(enclosed(reply, id_key(), '"'))
        + "… · lesson="@ + lesson_id
}

/// What the student is told when a solution of so many bytes was handed in.
fn submitted_message(bytes: usize, reply: &str, lesson_id: &str) -> (r: String)
    ensures
        r@ == submitted_text(bytes as nat, reply@, lesson_id@),
{
    let mut r = "✓ Submitted ".to_string();
    r.append(decimal_text(bytes as u128).as_str());
    r.append(" bytes · id=");
    r.append(short_id(parse_submission_id(reply)).as_str());
    r.append("… · lesson=");
    r.append(lesson_id);
    r
}

// ---------------------------------------------------------------------------
// Step by step
// ---------------------------------------------------------------------------

/// What is handed in: a file's lesson, its course and its place there.
pub struct Submission {
    pub lesson_id: String,
    pub course_id: String,
    pub rel_path: String,
}

/// How far handing in has come: what it waits for.
pub enum SubmitState {
    /// The token.
    Credentials(Submission),
    /// The file, to be sent with this token.
    File(Submission, String),
    /// The log of pastes; the token and the content are there.
    Pastes(Submission, String, String),
    /// The answer to the report of pastes.
    PastesSent(Submission, String, String),
    /// The answer to the submission of so many bytes.
    Submitted(Submission, usize),
    /// Nothing: all is done.
    Done,
}

/// What handing in waited for.
pub enum SubmitEvent {
    Credentials(Credentials),
    /// The file as text, or why it could not be read.
    File(Result<String, String>),
    /// The pastes that were logged, now taken off the log.
    Pastes(Vec<PasteRecord>),
    /// What came of the report of pastes.
    PastesSent(Sent),
    /// What came of the submission.
    Submitted(Sent),
}

/// What is to be done next.
pub enum SubmitAction {
    ReadCredentials,
    ReadFile,
    /// Take the pastes off the log.
    DrainPastes,
    SendPastes(Request),
    SendSubmission(Request),
    /// Tell the student, and fetch the marks of the lessons anew if need be.
    Finish { toast: String, refresh: bool },
}

/// Whether an event is the one that is waited for.
pub open spec fn awaited(state: SubmitState, event: SubmitEvent) -> bool {
    match state {
        SubmitState::Credentials(_) => event is Credentials,
        SubmitState::File(_, _) => event is File,
        SubmitState::Pastes(_, _, _) => event is Pastes,
        SubmitState::PastesSent(_, _, _) => event is PastesSent,
        SubmitState::Submitted(_, _) => event is Submitted,
        SubmitState::Done => false,
    }
}

/// Whether all ends with that message.
pub open spec fn finishes(
    next: SubmitState,
    action: SubmitAction,
    message: Seq<char>,
    again: bool,
) -> bool {
    &&& next is Done
    &&& action matches SubmitAction::Finish { toast, refresh } && toast@ == message && refresh
        == again
}

/// Whether the solution is sent next.
pub open spec fn submits(
    submission: Submission,
    jwt: String,
    content: String,
    next: SubmitState,
    action: SubmitAction,
) -> bool {
    &&& next == SubmitState::Submitted(submission, encode_utf8(content@).len() as usize)
    &&& encode_utf8(content@).len() <= usize::MAX
    &&& action matches SubmitAction::SendSubmission(request) && request@ == post_view(
        "/submissions/"@ + url_encoded(submission.lesson_id@),
        jwt@,
        submission_tree(content@, submission.course_id@, submission.rel_path@),
    )
}

/// Whether `next` and `action` are what an event leads to.
pub open spec fn submit_leads(
    state: SubmitState,
    event: SubmitEvent,
    next: SubmitState,
    action: SubmitAction,
) -> bool {
    match (state, event) {
        (SubmitState::Credentials(submission), SubmitEvent::Credentials(credentials)) => match
        credentials {
            Credentials::Unreadable(e) => finishes(
                next,
                action,
                "Submit failed: keychain — "@ + e@,
                false,
            ),
            Credentials::Absent => finishes(
                next,
                action,
                "Not signed in. Run `WolfCode: Sign In From File` first."@,
                false,
            ),
            Credentials::Stored(bytes) => if valid_utf8(bytes@) {
                &&& next matches SubmitState::File(same, jwt) && same == submission && jwt@
                    == decode_utf8(bytes@)
                &&& action is ReadFile
            } else {
                finishes(next, action, "Submit failed: bad JWT — "@ + utf8_fault(bytes@), false)
            },
        },
        (SubmitState::File(submission, jwt), SubmitEvent::File(read)) => match read {
            Ok(content) => {
                &&& next == SubmitState::Pastes(submission, jwt, content)
                &&& action is DrainPastes
            },
            Err(e) => finishes(next, action, "Submit failed: couldn't read file — "@ + e@, false),
        },
        (SubmitState::Pastes(submission, jwt, content), SubmitEvent::Pastes(records)) => if records@.len()
            == 0 {
            submits(submission, jwt, content, next, action)
        } else {
            &&& next == SubmitState::PastesSent(submission, jwt, content)
            &&& action matches SubmitAction::SendPastes(request) && request@ == paste_view(
                records@,
                jwt@,
                submission.lesson_id@,
                submission.course_id@,
            )
        },
        (SubmitState::PastesSent(submission, jwt, content), SubmitEvent::PastesSent(_)) => submits(
            submission,
            jwt,
            content,
            next,
            action,
        ),
        (SubmitState::Submitted(submission, bytes), SubmitEvent::Submitted(sent)) => match posted(
            "/submissions"@,
            sent,
        ) {
            Ok(reply) => finishes(
                next,
                action,
                submitted_text(bytes as nat, reply, submission.lesson_id@),
                true,
            ),
            Err(e) => finishes(next, action, "Submit failed: "@ + e, false),
        },
        _ => false,
    }
}

/// Starts handing in.
pub fn start_submit(submission: Submission) -> (r: (SubmitState, SubmitAction))
    ensures
        r.0 == SubmitState::Credentials(submission),
        r.1 is ReadCredentials,
{
    (SubmitState::Credentials(submission), SubmitAction::ReadCredentials)
}

/// Ends handing in with a message.
fn finish(message: String, refresh: bool) -> (r: (SubmitState, SubmitAction))
    ensures
        finishes(r.0, r.1, message@, refresh),
{
    (SubmitState::Done, SubmitAction::Finish { toast: message, refresh })
}

/// Sends the solution.
fn send_solution(submission: Submission, jwt: String, content: String) -> (r: (
    SubmitState,
    SubmitAction,
))
    ensures
        submits(submission, jwt, content, r.0, r.1),
{
    let bytes: usize = content.as_str().as_bytes().len();
    let request = submission_request(
        jwt.as_str(),
        submission.lesson_id.as_str(),
        submission.course_id.as_str(),
        submission.rel_path.as_str(),
        content.as_str(),
    );
    (SubmitState::Submitted(submission, bytes), SubmitAction::SendSubmission(request))
}

/// Goes on with handing in when what it waits for has come.
pub fn submit_step(state: SubmitState, event: SubmitEvent) -> (r: (SubmitState, SubmitAction))
    requires
        awaited(state, event),
    ensures
        submit_leads(state, event, r.0, r.1),
{
    match (state, event) {
        (SubmitState::Credentials(submission), SubmitEvent::Credentials(credentials)) => match
        token_of(credentials) {
            Token::Unreadable(e) => finish(
                "Submit failed: keychain — ".to_string().concat(e.as_str()),
                false,
            ),
            Token::Absent => finish(
                "Not signed in. Run `WolfCode: Sign In From File` first.".to_string(),
                false,
            ),
            Token::Garbled(e) => finish(
                "Submit failed: bad JWT — ".to_string().concat(e.as_str()),
                false,
            ),
            Token::Present(jwt) => (SubmitState::File(submission, jwt), SubmitAction::ReadFile),
        },
        (SubmitState::File(submission, jwt), SubmitEvent::File(read)) => match read {
            Ok(content) => (
                SubmitState::Pastes(submission, jwt, content),
                SubmitAction::DrainPastes,
            ),
            Err(e) => finish(
                "Submit failed: couldn't read file — ".to_string().concat(e.as_str()),
                false,
            ),
        },
        (SubmitState::Pastes(submission, jwt, content), SubmitEvent::Pastes(records)) => match
        paste_request(
            &records,
            jwt.as_str(),
            submission.lesson_id.as_str(),
            submission.course_id.as_str(),
        ) {
            Some(request) => (
                SubmitState::PastesSent(submission, jwt, content),
                SubmitAction::SendPastes(request),
            ),
            None => send_solution(submission, jwt, content),
        },
        (SubmitState::PastesSent(submission, jwt, content), SubmitEvent::PastesSent(_)) => {
            send_solution(submission, jwt, content)
        },
        (SubmitState::Submitted(submission, bytes), SubmitEvent::Submitted(sent)) => {
            match submission_outcome(sent) {
                Ok(reply) => finish(
                    submitted_message(bytes, reply.as_str(), submission.lesson_id.as_str()),
                    true,
                ),
                Err(e) => finish("Submit failed: ".to_string().concat(e.as_str()), false),
            }
        },
        // Nothing else is awaited.
        (state, _) => (state, SubmitAction::ReadCredentials),
    }
}

// ---------------------------------------------------------------------------
// Laws
// ---------------------------------------------------------------------------

/// What is found in a text is found at the same place when more follows.
proof fn lemma_find_before_more(s: Seq<char>, more: Seq<char>, pattern: Seq<char>)
    requires
        find(s, pattern) is Some,
    ensures
        find(s + more, pattern) == find(s, pattern),
    decreases s.len(),
{
    let all = s + more;
    if pattern.is_prefix_of(s) {
        assert(all.subrange(0, pattern.len() as int) =~= s.subrange(0, pattern.len() as int));
    } else {
        lemma_find_before_more(s.skip(1), more, pattern);
        lemma_find_fits(s, pattern);
        assert(all.skip(1) =~= s.skip(1) + more);
        if pattern.is_prefix_of(all) {
            assert(s.subrange(0, pattern.len() as int) =~= all.subrange(0, pattern.len() as int));
        }
    }
}

/// What is found in a text lies in it.
proof fn lemma_find_fits(s: Seq<char>, pattern: Seq<char>)
    requires
        find(s, pattern) is Some,
    ensures
        find(s, pattern)->0 + pattern.len() <= s.len(),
    decreases s.len(),
{
    if !pattern.is_prefix_of(s) {
        lemma_find_fits(s.skip(1), pattern);
    }
}

/// The id that a reply gives under `submission_id` is read from it, whatever
/// else the reply holds before and after.
pub proof fn law_submission_id_is_read(before: Seq<char>, id: Seq<char>, after: Seq<char>)
    requires
        find(before + id_key(), id_key()) == Some(before.len()),
        forall|i: int| 0 <= i < id.len() ==> #[trigger] id[i] != '"',
    ensures
        enclosed(before + id_key() + id + seq!['"'] + after, id_key(), '"') == Some(id),
{
    let reply = before + id_key() + id + seq!['"'] + after;
    let rest = id + seq!['"'] + after;
    assert(reply =~= (before + id_key()) + rest);
    lemma_find_before_more(before + id_key(), rest, id_key());
    assert(reply.skip((before.len() + id_key().len()) as int) =~= rest);
    assert forall|i: int| 0 <= i < id.len() implies #[trigger] rest[i] != '"' by {
        assert(rest[i] == id[i]);
    }
    assert(rest[id.len() as int] == '"');
    lemma_before_char_is(rest, '"', id.len() as int);
    assert(rest.take(id.len() as int) =~= id);
}

/// One way that handing in may go: the states it goes through, what came to
/// each of them, and what was done on reaching it.
pub open spec fn submit_run(
    states: Seq<SubmitState>,
    events: Seq<SubmitEvent>,
    actions: Seq<SubmitAction>,
) -> bool {
    &&& states.len() == events.len() + 1
    &&& actions.len() == states.len()
    &&& states[0] is Credentials
    &&& actions[0] is ReadCredentials
    &&& forall|i: int|
        0 <= i < events.len() ==> awaited(states[i], #[trigger] events[i]) && submit_leads(
            states[i],
            events[i],
            states[i + 1],
            actions[i + 1],
        )
}

/// Where a run is by its length, and what was done there.
proof fn lemma_submit_run(
    states: Seq<SubmitState>,
    events: Seq<SubmitEvent>,
    actions: Seq<SubmitAction>,
    k: int,
)
    requires
        submit_run(states, events, actions),
        0 <= k < states.len(),
    ensures
        states[k] is Credentials ==> k == 0,
        states[k] is File ==> k == 1,
        states[k] is Pastes ==> k == 2 && actions[2] is DrainPastes,
        states[k] is PastesSent ==> k == 3 && actions[3] is SendPastes,
        states[k] is Submitted ==> 3 <= k <= 4 && actions[k] is SendSubmission,
        k > 0 && (states[k] is File || states[k] is Pastes || states[k] is PastesSent) ==> {
            &&& events[0] matches SubmitEvent::Credentials(Credentials::Stored(bytes))
                && valid_utf8(bytes@) && decode_utf8(bytes@) == (match states[k] {
                SubmitState::File(_, jwt) => jwt@,
                SubmitState::Pastes(_, jwt, _) => jwt@,
                SubmitState::PastesSent(_, jwt, _) => jwt@,
                _ => seq![],
            })
        },
        k <= 5,
        states[k] is Done || k <= 4,
    decreases k,
{
    if k > 0 {
        lemma_submit_run(states, events, actions, k - 1);
        assert(awaited(states[k - 1], events[k - 1]));
        assert(submit_leads(states[k - 1], events[k - 1], states[k], actions[k]));
    }
}

/// The pastes are taken off the log and reported before the solution is sent,
/// so that they count for its lesson and not for the next one.
pub proof fn law_pastes_before_submission(
    states: Seq<SubmitState>,
    events: Seq<SubmitEvent>,
    actions: Seq<SubmitAction>,
    k: int,
)
    requires
        submit_run(states, events, actions),
        0 <= k < actions.len(),
        actions[k] is SendSubmission,
    ensures
        exists|j: int|
            {
                &&& 0 <= j < k
                &&& #[trigger] actions[j] is DrainPastes
                &&& events[j] matches SubmitEvent::Pastes(records) && if records@.len() == 0 {
                    k == j + 1
                } else {
                    k == j + 2 && actions[j + 1] is SendPastes
                }
            },
{
    lemma_submit_run(states, events, actions, k);
    lemma_submit_run(states, events, actions, k - 1);
    assert(submit_leads(states[k - 1], events[k - 1], states[k], actions[k]));
    assert(awaited(states[k - 1], events[k - 1]));
    if states[k - 1] is PastesSent {
        lemma_submit_run(states, events, actions, 2);
        assert(submit_leads(states[2], events[2], states[3], actions[3]));
        assert(awaited(states[2], events[2]));
    }
    assert(actions[2] is DrainPastes);
}

/// Nothing is sent without the token that the keychain has, and everything
/// that is sent carries it.
pub proof fn law_submission_carries_token(
    states: Seq<SubmitState>,
    events: Seq<SubmitEvent>,
    actions: Seq<SubmitAction>,
    k: int,
    request: Request,
)
    requires
        submit_run(states, events, actions),
        0 <= k < actions.len(),
        actions[k] == SubmitAction::SendSubmission(request) || actions[k]
            == SubmitAction::SendPastes(request),
    ensures
        events.len() > 0,
        events[0] matches SubmitEvent::Credentials(Credentials::Stored(bytes)) && valid_utf8(bytes@)
            && request@.headers[0] == bearer(decode_utf8(bytes@)),
{
    lemma_submit_run(states, events, actions, k);
    lemma_submit_run(states, events, actions, k - 1);
    assert(submit_leads(states[k - 1], events[k - 1], states[k], actions[k]));
    assert(awaited(states[k - 1], events[k - 1]));
}

/// Handing in comes to an end: after five events at most there is nothing left
/// to wait for, and the solution was sent once at most.
pub proof fn law_submission_ends(
    states: Seq<SubmitState>,
    events: Seq<SubmitEvent>,
    actions: Seq<SubmitAction>,
)
    requires
        submit_run(states, events, actions),
    ensures
        events.len() <= 5,
        events.len() == 5 ==> states[5] is Done,
        forall|i: int, j: int|
            0 <= i < j < actions.len() ==> !(#[trigger] actions[i] is SendSubmission
                && #[trigger] actions[j] is SendSubmission),
{
    lemma_submit_run(states, events, actions, states.len() - 1);
    assert forall|i: int, j: int| 0 <= i < j < actions.len() implies !(
    #[trigger] actions[i] is SendSubmission && #[trigger] actions[j] is SendSubmission) by {
        lemma_submit_run(states, events, actions, i);
        lemma_submit_run(states, events, actions, i + 1);
        lemma_submit_run(states, events, actions, j);
        assert(awaited(states[j - 1], events[j - 1]));
        assert(submit_leads(states[j - 1], events[j - 1], states[j], actions[j]));
        if i > 0 {
            assert(awaited(states[i - 1], events[i - 1]));
            assert(submit_leads(states[i - 1], events[i - 1], states[i], actions[i]));
        }
        lemma_submit_run(states, events, actions, j - 1);
        assert(awaited(states[i], events[i]));
        assert(submit_leads(states[i], events[i], states[i + 1], actions[i + 1]));
    }
}

/// The pastes are taken off the log once at most and reported once at most, and
/// where the log was empty nothing is reported.
pub proof fn law_submission_reports_pastes_once(
    states: Seq<SubmitState>,
    events: Seq<SubmitEvent>,
    actions: Seq<SubmitAction>,
    i: int,
    j: int,
)
    requires
        submit_run(states, events, actions),
        0 <= i < actions.len(),
        0 <= j < actions.len(),
    ensures
        actions[i] is SendPastes && actions[j] is SendPastes ==> i == j,
        actions[i] is DrainPastes && actions[j] is DrainPastes ==> i == j,
        i < events.len() && (events[i] matches SubmitEvent::Pastes(records) && records@.len() == 0)
            ==> !(actions[j] is SendPastes),
{
    lemma_submit_action(states, events, actions, i);
    lemma_submit_action(states, events, actions, j);
    if i < events.len() {
        lemma_submit_run(states, events, actions, i);
        assert(awaited(states[i], events[i]));
    }
}

/// What is done on the pastes is done at its place in a run.
proof fn lemma_submit_action(
    states: Seq<SubmitState>,
    events: Seq<SubmitEvent>,
    actions: Seq<SubmitAction>,
    k: int,
)
    requires
        submit_run(states, events, actions),
        0 <= k < actions.len(),
    ensures
        actions[k] is DrainPastes ==> k == 2,
        actions[k] is SendPastes ==> k == 3 && (events[2] matches SubmitEvent::Pastes(records)
            && records@.len() > 0),
{
    if k > 0 {
        lemma_submit_run(states, events, actions, k);
        lemma_submit_run(states, events, actions, k - 1);
        assert(awaited(states[k - 1], events[k - 1]));
        assert(submit_leads(states[k - 1], events[k - 1], states[k], actions[k]));
    }
}

/// Once the pastes are reported they are forgotten: the state that follows is
/// the same whatever was pasted.
pub proof fn law_submission_forgets_pastes(
    state: SubmitState,
    records: Vec<PasteRecord>,
    others: Vec<PasteRecord>,
    next: SubmitState,
    other_next: SubmitState,
    action: SubmitAction,
    other_action: SubmitAction,
)
    requires
        submit_leads(state, SubmitEvent::Pastes(records), next, action),
        submit_leads(state, SubmitEvent::Pastes(others), other_next, other_action),
        action is SendPastes,
        other_action is SendPastes,
    ensures
        next == other_next,
{
}

/// Where the file of a run comes from, and what the run hands in.
proof fn lemma_submit_parts(
    states: Seq<SubmitState>,
    events: Seq<SubmitEvent>,
    actions: Seq<SubmitAction>,
    k: int,
)
    requires
        submit_run(states, events, actions),
        0 <= k < states.len(),
    ensures
        (match states[k] {
            SubmitState::Credentials(submission) => Some(submission),
            SubmitState::File(submission, _) => Some(submission),
            SubmitState::Pastes(submission, _, _) => Some(submission),
            SubmitState::PastesSent(submission, _, _) => Some(submission),
            SubmitState::Submitted(submission, _) => Some(submission),
            SubmitState::Done => None,
        }) matches Some(submission) ==> states[0] == SubmitState::Credentials(submission),
        (match states[k] {
            SubmitState::Pastes(_, _, content) => Some(content),
            SubmitState::PastesSent(_, _, content) => Some(content),
            _ => None,
        }) matches Some(content) ==> events.len() > 1 && events[1] == SubmitEvent::File(
            Ok(content),
        ),
        states[k] matches SubmitState::Submitted(_, bytes) ==> events.len() > 1 && (
        events[1] matches SubmitEvent::File(Ok(content)) && bytes == encode_utf8(content@).len()),
    decreases k,
{
    if k > 0 {
        lemma_submit_parts(states, events, actions, k - 1);
        lemma_submit_run(states, events, actions, k);
        lemma_submit_run(states, events, actions, k - 1);
        assert(awaited(states[k - 1], events[k - 1]));
        assert(submit_leads(states[k - 1], events[k - 1], states[k], actions[k]));
    }
}

/// What is handed in is the file as it was read, under the lesson, the course
/// and the place that were asked for, with the token that the keychain has.
pub proof fn law_the_file_is_handed_in(
    states: Seq<SubmitState>,
    events: Seq<SubmitEvent>,
    actions: Seq<SubmitAction>,
    k: int,
    request: Request,
    submission: Submission,
    content: String,
    bytes: Vec<u8>,
)
    requires
        submit_run(states, events, actions),
        0 <= k < actions.len(),
        actions[k] == SubmitAction::SendSubmission(request),
        states[0] == SubmitState::Credentials(submission),
        events[0] == SubmitEvent::Credentials(Credentials::Stored(bytes)),
        events[1] == SubmitEvent::File(Ok(content)),
    ensures
        request@.method == Method::Post,
        request@.url == "https://wolfcode-bff.quake0day.workers.dev/submissions/"@ + url_encoded(
            submission.lesson_id@,
        ),
        request@.headers == seq![
            ("Authorization"@, "Bearer "@ + decode_utf8(bytes@)),
            ("Content-Type"@, "application/json"@),
        ],
        request@.body == Some(
            json_text(
                JsonTree::Object(
                    seq![
                        ("content"@, JsonTree::Text(content@)),
                        ("course_id"@, JsonTree::Text(submission.course_id@)),
                        ("file_path"@, JsonTree::Text(submission.rel_path@)),
                    ],
                ),
            ),
        ),
{
    reveal_strlit("https://wolfcode-bff.quake0day.workers.dev");
    reveal_strlit("/submissions/");
    reveal_strlit("https://wolfcode-bff.quake0day.workers.dev/submissions/");
    lemma_submit_run(states, events, actions, k);
    lemma_submit_run(states, events, actions, k - 1);
    lemma_submit_parts(states, events, actions, k - 1);
    assert(awaited(states[k - 1], events[k - 1]));
    assert(submit_leads(states[k - 1], events[k - 1], states[k], actions[k]));
    assert(request@.url =~= "https://wolfcode-bff.quake0day.workers.dev/submissions/"@
        + url_encoded(submission.lesson_id@));
}

/// With a token that can be read and a file that can be read a solution is
/// always sent: at once where nothing was pasted, and else after the report of
/// the pastes, whatever comes of that.
pub proof fn law_nothing_keeps_a_solution_back(
    submission: Submission,
    jwt: String,
    content: String,
    records: Vec<PasteRecord>,
    sent: Sent,
    next: SubmitState,
    action: SubmitAction,
)
    ensures
        submit_leads(
            SubmitState::File(submission, jwt),
            SubmitEvent::File(Ok(content)),
            next,
            action,
        ) ==> next == SubmitState::Pastes(submission, jwt, content) && action is DrainPastes,
        records@.len() == 0 && submit_leads(
            SubmitState::Pastes(submission, jwt, content),
            SubmitEvent::Pastes(records),
            next,
            action,
        ) ==> next is Submitted && action is SendSubmission,
        records@.len() > 0 && submit_leads(
            SubmitState::Pastes(submission, jwt, content),
            SubmitEvent::Pastes(records),
            next,
            action,
        ) ==> next == SubmitState::PastesSent(submission, jwt, content) && (
        action matches SubmitAction::SendPastes(request) && flush_view(
            records@,
            jwt@,
            submission.lesson_id@,
            submission.course_id@,
        ) == Some(request@)),
        submit_leads(
            SubmitState::PastesSent(submission, jwt, content),
            SubmitEvent::PastesSent(sent),
            next,
            action,
        ) ==> next is Submitted && action is SendSubmission,
{
}

/// Whatever keeps a solution from being handed in is told to the student, and
/// the marks are then left as they are.
pub proof fn law_failure_to_submit_is_told(
    submission: Submission,
    jwt: String,
    bytes: Vec<u8>,
    size: usize,
    error: String,
    sent: Sent,
    next: SubmitState,
    action: SubmitAction,
)
    ensures
        submit_leads(
            SubmitState::Credentials(submission),
            SubmitEvent::Credentials(Credentials::Unreadable(error)),
            next,
            action,
        ) ==> next is Done && (action matches SubmitAction::Finish { toast, refresh } && !refresh
            && toast@ == "Submit failed: keychain — "@ + error@),
        submit_leads(
            SubmitState::Credentials(submission),
            SubmitEvent::Credentials(Credentials::Absent),
            next,
            action,
        ) ==> next is Done && (action matches SubmitAction::Finish { toast, refresh } && !refresh
            && toast@ == "Not signed in. Run `WolfCode: Sign In From File` first."@),
        !valid_utf8(bytes@) && submit_leads(
            SubmitState::Credentials(submission),
            SubmitEvent::Credentials(Credentials::Stored(bytes)),
            next,
            action,
        ) ==> next is Done && (action matches SubmitAction::Finish { toast, refresh } && !refresh
            && toast@ == "Submit failed: bad JWT — "@ + utf8_fault(bytes@)),
        valid_utf8(bytes@) && submit_leads(
            SubmitState::Credentials(submission),
            SubmitEvent::Credentials(Credentials::Stored(bytes)),
            next,
            action,
        ) ==> action is ReadFile && (next matches SubmitState::File(same, token) && same
            == submission && token@ == decode_utf8(bytes@)),
        submit_leads(
            SubmitState::File(submission, jwt),
            SubmitEvent::File(Err(error)),
            next,
            action,
        ) ==> next is Done && (action matches SubmitAction::Finish { toast, refresh } && !refresh
            && toast@ == "Submit failed: couldn't read file — "@ + error@),
        posted("/submissions"@, sent) is Err && submit_leads(
            SubmitState::Submitted(submission, size),
            SubmitEvent::Submitted(sent),
            next,
            action,
        ) ==> next is Done && (action matches SubmitAction::Finish { toast, refresh } && !refresh
            && toast@ == "Submit failed: "@ + posted("/submissions"@, sent)->Err_0),
{
}

/// A solution that was handed in is told by its size, the first eight characters
/// of its id and its lesson, and the marks are fetched anew. The id is what the
/// reply has between quotes under `submission_id`; a reply without one is told
/// with a question mark.
pub proof fn law_submission_is_told(
    submission: Submission,
    size: usize,
    shown: String,
    status: u16,
    reply: String,
    id: Seq<char>,
    next: SubmitState,
    action: SubmitAction,
)
    requires
        200 <= status <= 299,
        submit_leads(
            SubmitState::Submitted(submission, size),
            SubmitEvent::Submitted(Sent::Answered { status, shown, body: Body::Whole(reply) }),
            next,
            action,
        ),
        match enclosed(reply@, "\"submission_id\":\""@, '"') {
            Some(found) => id == (if found.len() > 8 {
                found.subrange(0, 8)
            } else {
                found
            }),
            None => id == "?"@,
        },
    ensures
        next is Done,
        action matches SubmitAction::Finish { toast, refresh } && refresh && toast@
            == "✓ Submitted "@ + decimal(size as nat) + " bytes · id="@ + id + "… · lesson="@
            + submission.lesson_id@,
{
    match enclosed(reply@, "\"submission_id\":\""@, '"') {
        Some(found) => {
            assert(found.len() > 8 ==> found.take(8) =~= found.subrange(0, 8));
        },
        None => {},
    }
}

/// The size that is told is that of the file, in bytes.
pub proof fn law_size_is_that_of_the_file(
    states: Seq<SubmitState>,
    events: Seq<SubmitEvent>,
    actions: Seq<SubmitAction>,
    k: int,
    submission: Submission,
    size: usize,
)
    requires
        submit_run(states, events, actions),
        0 <= k < states.len(),
        states[k] == SubmitState::Submitted(submission, size),
    ensures
        states[0] == SubmitState::Credentials(submission),
        events[1] matches SubmitEvent::File(Ok(content)) && size == encode_utf8(content@).len(),
{
    lemma_submit_parts(states, events, actions, k);
}

/// Where the key stands once only before it, the id is what follows up to the
/// next quote.
pub proof fn law_first_id_is_read(before: Seq<char>, id: Seq<char>, after: Seq<char>)
    requires
        forall|i: int|
            0 <= i < before.len() ==> #[trigger] (before + "\"submission_id\":\""@).subrange(
                i,
                i + 17,
            ) != "\"submission_id\":\""@,
        !id.contains('"'),
    ensures
        enclosed(
            before + "\"submission_id\":\""@ + id + seq!['"'] + after,
            "\"submission_id\":\""@,
            '"',
        ) == Some(id),
{
    reveal_strlit("\"submission_id\":\"");
    let key = "\"submission_id\":\""@;
    let s = before + key;
    let n = before.len() as int;
    law_first_occurrence_is_found(s, key);
    assert(s.subrange(n, n + 17) =~= key);
    assert(key.len() == 17);
    match find(s, key) {
        Some(at) => {
            if at < n {
                let i = at as int;
                assert(s.subrange(i, i + 17) == key);
            } else if at > n {
                assert(s.subrange(n, n + key.len()) != key);
            }
        },
        None => {
            assert(s.subrange(n, n + key.len()) != key);
        },
    }
    assert forall|i: int| 0 <= i < id.len() implies #[trigger] id[i] != '"' by {
        assert(id.contains(id[i]));
    }
    law_submission_id_is_read(before, id, after);
}

/// Handing in waits for the token, the file, the pastes, the answer to these and
/// the answer to the submission, in turn, and for nothing when it is done.
pub proof fn law_submission_waits_in_turn(
    submission: Submission,
    jwt: String,
    content: String,
    size: usize,
    event: SubmitEvent,
)
    ensures
        awaited(SubmitState::Credentials(submission), event) <==> event is Credentials,
        awaited(SubmitState::File(submission, jwt), event) <==> event is File,
        awaited(SubmitState::Pastes(submission, jwt, content), event) <==> event is Pastes,
        awaited(SubmitState::PastesSent(submission, jwt, content), event)
            <==> event is PastesSent,
        awaited(SubmitState::Submitted(submission, size), event) <==> event is Submitted,
        !awaited(SubmitState::Done, event),
{
}

} // verus!
