//! The tutor: reading its answer, asking it for a hint, and the panel that
//! shows what it said.

use crate::bff::{
    bearer, fetched, token_of, tutor_outcome, tutor_request, tutor_view, utf8_fault, Body,
    Credentials, Method, Request, Sent, Token, BFF_URL,
};
use crate::events::question_tree;
use crate::json::{
    field_of, json_read, json_text, member, member_in, parse_text, Field, JsonTree,
};
use crate::text::{
    chars_of, decimal, decimal_text, lemma_before_char_is, lines, opt_view, same_text, split_lines,
    strip_prefix, views, without_prefix, without_return,
};
use crate::view::{label, opt_label, Label, LabelView, Tone};
use vstd::prelude::*;
use vstd::utf8::{decode_utf8, valid_utf8};

verus! {

// ---------------------------------------------------------------------------
// The stream of an answer
// ---------------------------------------------------------------------------

/// What a line of the stream carries. Of the white space after `data:` only
/// one space belongs to the protocol; any more belongs to the answer.
pub open spec fn payload(line: Seq<char>) -> Option<Seq<char>> {
    match without_prefix(line, "data:"@) {
        None => None,
        Some(rest) => {
            let data = match without_prefix(rest, " "@) {
                Some(data) => data,
                None => rest,
            };
            if data.len() == 0 || data == "[DONE]"@ {
                None
            } else {
                Some(data)
            }
        },
    }
}

/// The first of the members `delta`, `content` and `text` that a value has.
pub open spec fn chunk_member(read: Option<JsonTree>) -> Option<JsonTree> {
    match read {
        None => None,
        Some(tree) => match member(tree, "delta"@) {
            Some(found) => Some(found),
            None => match member(tree, "content"@) {
                Some(found) => Some(found),
                None => member(tree, "text"@),
            },
        },
    }
}

/// The piece of the answer that a payload stands for, given the JSON value
/// that is read from it: the text of that member, or else the payload itself.
pub open spec fn chunk(data: Seq<char>, read: Option<JsonTree>) -> Seq<char> {
    match chunk_member(read) {
        Some(JsonTree::Text(s)) => s,
        _ => data,
    }
}

/// The piece of the answer that a line carries.
pub open spec fn line_text(line: Seq<char>) -> Seq<char> {
    match payload(line) {
        Some(data) => chunk(data, json_read(data)),
        None => seq![],
    }
}

/// The pieces that a list of lines carries, put together.
pub open spec fn stream_text(list: Seq<Seq<char>>) -> Seq<char>
    decreases list.len(),
{
    if list.len() == 0 {
        seq![]
    } else {
        line_text(list[0]) + stream_text(list.skip(1))
    }
}

/// What a line of the stream carries.
fn payload_of(line: &str) -> (r: Option<String>)
    ensures
        opt_view(r) == payload(line@),
{
    match strip_prefix(line, "data:") {
        None => None,
        Some(rest) => {
            let data = match strip_prefix(rest.as_str(), " ") {
                Some(data) => data,
                None => rest,
            };
            if data.as_str().is_empty() || same_text(data.as_str(), "[DONE]") {
                None
            } else {
                Some(data)
            }
        },
    }
}

/// The piece that a JSON object stands for, given what it has under `delta`,
/// `content` and `text`: the first member that is there counts, and where it
/// is no text the whole payload stands.
pub open spec fn picked(data: Seq<char>, delta: Field, content: Field, text: Field) -> Seq<char> {
    match delta {
        Field::Text(s) => s@,
        Field::Other => data,
        Field::Missing => match content {
            Field::Text(s) => s@,
            Field::Other => data,
            Field::Missing => match text {
                Field::Text(s) => s@,
                _ => data,
            },
        },
    }
}

/// The piece that a JSON object stands for, given what it has under `delta`,
/// `content` and `text`.
pub fn pick_chunk(data: &str, delta: Field, content: Field, text: Field) -> (r: String)
    ensures
        r@ == picked(data@, delta, content, text),
{
    match delta {
        Field::Text(s) => s,
        Field::Other => data.to_string(),
        Field::Missing => match content {
            Field::Text(s) => s,
            Field::Other => data.to_string(),
            Field::Missing => match text {
                Field::Text(s) => s,
                _ => data.to_string(),
            },
        },
    }
}

/// The piece of the answer that a payload stands for.
fn chunk_text(data: &str) -> (r: String)
    ensures
        r@ == chunk(data@, json_read(data@)),
{
    match parse_text(data) {
        Some(value) => {
            let delta = field_of(&value, "delta");
            let content = field_of(&value, "content");
            let text = field_of(&value, "text");
            pick_chunk(data, delta, content, text)
        },
        None => data.to_string(),
    }
}

/// The answer that a stream of events carries.
pub fn combine_stream(body: &str) -> (r: String)
    ensures
        r@ == stream_text(lines(body@)),
{
    let all = split_lines(body);
    let ghost texts = views(all@);
    let mut combined = String::new();
    assert(texts.skip(0) =~= texts);
    assert(combined@ + stream_text(texts) =~= stream_text(texts));
    for i in 0..all.len()
        invariant
            texts == views(all@),
            combined@ + stream_text(texts.skip(i as int)) == stream_text(texts),
    {
        let ghost before = combined@;
        let ghost rest = texts.skip(i as int);
        assert(rest[0] == all@[i as int]@);
        assert(rest.skip(1) =~= texts.skip(i + 1));
        match payload_of(all[i].as_str()) {
            Some(data) => {
                combined.append(chunk_text(data.as_str()).as_str());
            },
            None => {},
        }
        assert(combined@ =~= before + line_text(all@[i as int]@));
        assert(combined@ + stream_text(texts.skip(i + 1)) =~= before + stream_text(rest));
    }
    assert(combined@ + stream_text(texts.skip(all@.len() as int)) =~= combined@);
    combined
}

/// What comes of a question: the answer, or what went wrong.
pub open spec fn answer(sent: Sent) -> Result<Seq<char>, Seq<char>> {
    match fetched("/tutor/chat"@, sent) {
        Ok(body) => Ok(stream_text(lines(body))),
        Err(e) => Err(e),
    }
}

/// What came of a question: the answer, or what went wrong.
pub fn read_answer(sent: Sent) -> (r: Result<String, String>)
    ensures
        match answer(sent) {
            Ok(text) => r matches Ok(s) && s@ == text,
            Err(e) => r matches Err(error) && error@ == e,
        },
{
    match tutor_outcome(sent) {
        Ok(body) => Ok(combine_stream(body.as_str())),
        Err(error) => Err(error),
    }
}

// ---------------------------------------------------------------------------
// The panel
// ---------------------------------------------------------------------------

/// How much a hint gives away.
#[derive(Clone, Copy, PartialEq, Eq, Structural)]
pub enum HintLevel {
    /// Where the student is stuck.
    L1,
    /// The concept.
    L2,
    /// Pseudo-code or an analogy.
    L3,
}

impl HintLevel {
    /// The level as it is written.
    pub open spec fn text(self) -> Seq<char> {
        match self {
            HintLevel::L1 => "L1"@,
            HintLevel::L2 => "L2"@,
            HintLevel::L3 => "L3"@,
        }
    }

    /// The level as it is written.
    pub fn name(self) -> (r: &'static str)
        ensures
            r@ == self.text(),
    {
        match self {
            HintLevel::L1 => "L1",
            HintLevel::L2 => "L2",
            HintLevel::L3 => "L3",
        }
    }
}

/// The name of the tutor's panel.
pub const TUTOR_PANEL_KEY: &'static str = "TutorPanel";

/// How far the last question has come.
pub enum PanelStatus {
    Idle,
    Asking,
    /// Answered, by a reply of so many characters.
    Replied(usize),
    Error(String),
}

/// The panel that shows the last question and what came of it.
pub struct TutorPanel {
    pub current_lesson_id: Option<String>,
    pub current_level: Option<HintLevel>,
    pub current_question: Option<String>,
    pub status: PanelStatus,
    pub reply: Option<String>,
    pub active: bool,
}

impl TutorPanel {
    /// A panel before the first question.
    pub fn new() -> (r: Self)
        ensures
            r.current_lesson_id is None,
            r.current_level is None,
            r.current_question is None,
            r.status is Idle,
            r.reply is None,
            !r.active,
    {
        TutorPanel {
            current_lesson_id: None,
            current_level: None,
            current_question: None,
            status: PanelStatus::Idle,
            reply: None,
            active: false,
        }
    }

    /// A question is asked: what the last one left is gone.
    pub fn start_request(&mut self, lesson_id: String, level: HintLevel, question: String)
        ensures
            *final(self) == (TutorPanel {
                current_lesson_id: Some(lesson_id),
                current_level: Some(level),
                current_question: Some(question),
                status: PanelStatus::Asking,
                reply: None,
                active: old(self).active,
            }),
    {
        self.current_lesson_id = Some(lesson_id);
        self.current_level = Some(level);
        self.current_question = Some(question);
        self.status = PanelStatus::Asking;
        self.reply = None;
    }

    /// The answer has come.
    pub fn finish_request(&mut self, reply: String)
        ensures
            reply@.len() <= usize::MAX,
            *final(self) == (TutorPanel {
                status: PanelStatus::Replied(reply@.len() as usize),
                reply: Some(reply),
                ..*old(self)
            }),
    {
        let len: usize = chars_of(reply.as_str()).len();
        self.status = PanelStatus::Replied(len);
        self.reply = Some(reply);
    }

    /// No answer will come.
    pub fn fail_request(&mut self, err: String)
        ensures
            *final(self) == (TutorPanel { status: PanelStatus::Error(err), ..*old(self) }),
    {
        self.status = PanelStatus::Error(err);
    }

    /// The panel was brought to the front, or is there no more.
    pub fn set_active(&mut self, active: bool)
        ensures
            *final(self) == (TutorPanel { active, ..*old(self) }),
    {
        self.active = active;
    }
}

/// What the panel shows.
pub struct TutorView {
    /// How far the last question has come.
    pub status: Label,
    /// The lesson that it is about.
    pub lesson: Option<Label>,
    /// The level of the hint.
    pub level: Option<Label>,
    /// What the tutor was asked.
    pub question: Option<Label>,
    /// What came of it.
    pub body: Label,
}

/// How far the last question has come, as it is shown.
pub open spec fn status_shown(status: PanelStatus) -> LabelView {
    match status {
        PanelStatus::Idle => LabelView { text: "idle"@, tone: Tone::Muted },
        PanelStatus::Asking => LabelView { text: "asking..."@, tone: Tone::Info },
        PanelStatus::Replied(n) => LabelView {
            text: "replied · "@ + decimal(n as nat) + " chars"@,
            tone: Tone::Success,
        },
        PanelStatus::Error(_) => LabelView { text: "error"@, tone: Tone::Error },
    }
}

/// What came of the last question, as it is shown.
pub open spec fn body_shown(status: PanelStatus, reply: Option<String>) -> LabelView {
    match status {
        PanelStatus::Idle => LabelView {
            text:
                "Open a Python lesson and run\n`WolfCode Tutor: Ask L1` from the command palette."@,
            tone: Tone::Muted,
        },
        PanelStatus::Asking => LabelView {
            text: "Waiting for the AI Tutor..."@,
            tone: Tone::Muted,
        },
        PanelStatus::Replied(_) => match reply {
            Some(reply) => LabelView { text: reply@, tone: Tone::Default },
            None => LabelView { text: "(empty reply)"@, tone: Tone::Muted },
        },
        PanelStatus::Error(e) => LabelView { text: e@, tone: Tone::Error },
    }
}

impl TutorPanel {
    /// How far the last question has come, as it is shown.
    fn status_label(&self) -> (r: Label)
        ensures
            r@ == status_shown(self.status),
    {
        match &self.status {
            PanelStatus::Idle => label("idle".to_string(), Tone::Muted),
            PanelStatus::Asking => label("asking...".to_string(), Tone::Info),
            PanelStatus::Replied(n) => {
                let mut text = "replied · ".to_string();
                text.append(decimal_text(*n as u128).as_str());
                text.append(" chars");
                label(text, Tone::Success)
            },
            PanelStatus::Error(_) => label("error".to_string(), Tone::Error),
        }
    }

    /// What came of the last question, as it is shown.
    fn body_label(&self) -> (r: Label)
        ensures
            r@ == body_shown(self.status, self.reply),
    {
        match &self.status {
            PanelStatus::Idle => label(
                "Open a Python lesson and run\n`WolfCode Tutor: Ask L1` from the command palette.".to_string(),
                Tone::Muted,
            ),
            PanelStatus::Asking => label("Waiting for the AI Tutor...".to_string(), Tone::Muted),
            PanelStatus::Replied(_) => match &self.reply {
                Some(reply) => label(reply.clone(), Tone::Default),
                None => label("(empty reply)".to_string(), Tone::Muted),
            },
            PanelStatus::Error(e) => label(e.clone(), Tone::Error),
        }
    }

    /// What the panel shows.
    pub fn shown(&self) -> (r: TutorView)
        ensures
            r.status@ == status_shown(self.status),
            opt_label(r.lesson) == (match self.current_lesson_id {
                Some(id) => Some(LabelView { text: "lesson: "@ + id@, tone: Tone::Muted }),
                None => None,
            }),
            opt_label(r.level) == (match self.current_level {
                Some(level) => Some(LabelView { text: "level: "@ + level.text(), tone: Tone::Accent }),
                None => None,
            }),
            opt_label(r.question) == (match self.current_question {
                Some(question) => Some(LabelView { text: question@, tone: Tone::Default }),
                None => None,
            }),
            r.body@ == body_shown(self.status, self.reply),
    {
        let lesson = match &self.current_lesson_id {
            Some(id) => Some(label("lesson: ".to_string().concat(id.as_str()), Tone::Muted)),
            None => None,
        };
        let level = match self.current_level {
            Some(level) => Some(label("level: ".to_string().concat(level.name()), Tone::Accent)),
            None => None,
        };
        let question = match &self.current_question {
            Some(question) => Some(label(question.clone(), Tone::Default)),
            None => None,
        };
        TutorView { status: self.status_label(), lesson, level, question, body: self.body_label() }
    }
}

// ---------------------------------------------------------------------------
// Asking, step by step
// ---------------------------------------------------------------------------

/// What the tutor is asked, whatever the level.
pub const QUESTION: &'static str = "I'm not sure what to do next. Help me at this hint level.";

/// How far a question has come: what it waits for.
pub enum AskState {
    /// The token.
    Credentials(String, HintLevel),
    /// The student's code; the token is there.
    Code(String, HintLevel, String),
    /// The answer.
    Answer,
    /// Nothing: all is done.
    Done,
}

/// What a question waited for.
pub enum AskEvent {
    Credentials(Credentials),
    /// The student's code, where it could be read.
    Code(Option<String>),
    Answer(Sent),
}

/// What is to be done next.
pub enum AskAction {
    ReadCredentials,
    ReadCode,
    Send(Request),
    /// Show the answer.
    Finish(String),
    /// Show what went wrong.
    Fail(String),
}

/// Whether an event is the one that is waited for.
pub open spec fn ask_awaited(state: AskState, event: AskEvent) -> bool {
    match state {
        AskState::Credentials(_, _) => event is Credentials,
        AskState::Code(_, _, _) => event is Code,
        AskState::Answer => event is Answer,
        AskState::Done => false,
    }
}

/// Whether all ends with that failure.
pub open spec fn fails(next: AskState, action: AskAction, message: Seq<char>) -> bool {
    next is Done && (action matches AskAction::Fail(e) && e@ == message)
}

/// Whether `next` and `action` are what an event leads to.
pub open spec fn ask_leads(
    state: AskState,
    event: AskEvent,
    next: AskState,
    action: AskAction,
) -> bool {
    match (state, event) {
        (AskState::Credentials(lesson_id, level), AskEvent::Credentials(credentials)) => match
        credentials {
            Credentials::Unreadable(e) => fails(next, action, "keychain read failed: "@ + e@),
            Credentials::Absent => fails(next, action, "no JWT — run SignInFromFile"@),
            Credentials::Stored(bytes) => if valid_utf8(bytes@) {
                &&& next matches AskState::Code(same_id, same_level, jwt) && same_id == lesson_id
                    && same_level == level && jwt@ == decode_utf8(bytes@)
                &&& action is ReadCode
            } else {
                fails(next, action, "JWT not UTF-8: "@ + utf8_fault(bytes@))
            },
        },
        (AskState::Code(lesson_id, level, jwt), AskEvent::Code(code)) => {
            &&& next is Answer
            &&& action matches AskAction::Send(request) && request@ == tutor_view(
                jwt@,
                lesson_id@,
                level.text(),
                QUESTION@,
                match code {
                    Some(code) => code@,
                    None => seq![],
                },
            )
        },
        (AskState::Answer, AskEvent::Answer(sent)) => match answer(sent) {
            Ok(text) => next is Done && (action matches AskAction::Finish(reply) && reply@ == text),
            Err(e) => fails(next, action, e),
        },
        _ => false,
    }
}

/// Starts a question about a lesson.
pub fn start_ask(lesson_id: String, level: HintLevel) -> (r: (AskState, AskAction))
    ensures
        r.0 == AskState::Credentials(lesson_id, level),
        r.1 is ReadCredentials,
{
    (AskState::Credentials(lesson_id, level), AskAction::ReadCredentials)
}

/// Goes on with a question when what it waits for has come.
pub fn ask_step(state: AskState, event: AskEvent) -> (r: (AskState, AskAction))
    requires
        ask_awaited(state, event),
    ensures
        ask_leads(state, event, r.0, r.1),
{
    match (state, event) {
        (AskState::Credentials(lesson_id, level), AskEvent::Credentials(credentials)) => match
        token_of(credentials) {
            Token::Unreadable(e) => (
                AskState::Done,
                AskAction::Fail("keychain read failed: ".to_string().concat(e.as_str())),
            ),
            Token::Absent => (
                AskState::Done,
                AskAction::Fail("no JWT — run SignInFromFile".to_string()),
            ),
            Token::Garbled(e) => (
                AskState::Done,
                AskAction::Fail("JWT not UTF-8: ".to_string().concat(e.as_str())),
            ),
            Token::Present(jwt) => (AskState::Code(lesson_id, level, jwt), AskAction::ReadCode),
        },
        (AskState::Code(lesson_id, level, jwt), AskEvent::Code(code)) => {
            let code = match code {
                Some(code) => code,
                None => String::new(),
            };
            let request = tutor_request(
                jwt.as_str(),
                lesson_id.as_str(),
                level.name(),
                QUESTION,
                code.as_str(),
            );
            (AskState::Answer, AskAction::Send(request))
        },
        (AskState::Answer, AskEvent::Answer(sent)) => match read_answer(sent) {
            Ok(reply) => (AskState::Done, AskAction::Finish(reply)),
            Err(e) => (AskState::Done, AskAction::Fail(e)),
        },
        // Nothing else is awaited.
        (state, _) => (state, AskAction::ReadCredentials),
    }
}

// ---------------------------------------------------------------------------
// Laws
// ---------------------------------------------------------------------------

/// A stream that sends an answer in plain pieces, one to a line.
pub open spec fn plain_stream(tokens: Seq<Seq<char>>) -> Seq<char>
    decreases tokens.len(),
{
    if tokens.len() == 0 {
        seq![]
    } else {
        "data: "@ + tokens[0] + seq!['\n'] + plain_stream(tokens.skip(1))
    }
}

/// The pieces of an answer, put together.
pub open spec fn all_tokens(tokens: Seq<Seq<char>>) -> Seq<char>
    decreases tokens.len(),
{
    if tokens.len() == 0 {
        seq![]
    } else {
        tokens[0] + all_tokens(tokens.skip(1))
    }
}

/// Whether a piece can be sent as it is: it fits on a line, does not end the
/// stream, and is no JSON object that wraps a piece.
pub open spec fn is_plain_token(token: Seq<char>) -> bool {
    &&& token.len() > 0
    &&& token != "[DONE]"@
    &&& token.last() != '\r'
    &&& forall|i: int| 0 <= i < token.len() ==> #[trigger] token[i] != '\n'
    &&& chunk_member(json_read(token)) is None
}

/// A plain piece is what its line carries.
proof fn lemma_plain_line(token: Seq<char>)
    requires
        is_plain_token(token),
    ensures
        line_text("data: "@ + token) == token,
        without_return("data: "@ + token) == "data: "@ + token,
        forall|i: int|
            0 <= i < ("data: "@ + token).len() ==> #[trigger] ("data: "@ + token)[i] != '\n',
{
    reveal_strlit("data: ");
    reveal_strlit("data:");
    reveal_strlit(" ");
    let line = "data: "@ + token;
    assert(line.subrange(0, 5) =~= "data:"@);
    let rest = line.skip(5);
    assert(rest.subrange(0, 1) =~= " "@);
    assert(rest.skip(1) =~= token);
    assert(line.last() == token.last());
    assert forall|i: int| 0 <= i < line.len() implies #[trigger] line[i] != '\n' by {
        if i >= 6 {
            assert(line[i] == token[i - 6]);
        }
    }
}

/// An answer that is sent in plain pieces is put together exactly: no space
/// between the pieces is lost and none is added.
pub proof fn law_plain_tokens_are_kept(tokens: Seq<Seq<char>>)
    requires
        forall|i: int| 0 <= i < tokens.len() ==> is_plain_token(#[trigger] tokens[i]),
    ensures
        stream_text(lines(plain_stream(tokens))) == all_tokens(tokens),
    decreases tokens.len(),
{
    if tokens.len() > 0 {
        let line = "data: "@ + tokens[0];
        let more = plain_stream(tokens.skip(1));
        let s = plain_stream(tokens);
        assert(is_plain_token(tokens[0]));
        lemma_plain_line(tokens[0]);
        assert(s =~= line + seq!['\n'] + more);
        let n = line.len() as int;
        assert forall|i: int| 0 <= i < n implies #[trigger] s[i] != '\n' by {
            assert(s[i] == line[i]);
        }
        assert(s[n] == '\n');
        lemma_before_char_is(s, '\n', n);
        assert(s.take(n) =~= line);
        assert(s.skip(n + 1) =~= more);
        assert(lines(s) =~= seq![line] + lines(more));
        assert(lines(s).skip(1) =~= lines(more));
        assert forall|i: int| 0 <= i < tokens.skip(1).len() implies is_plain_token(
            #[trigger] tokens.skip(1)[i],
        ) by {
            assert(tokens.skip(1)[i] == tokens[i + 1]);
        }
        law_plain_tokens_are_kept(tokens.skip(1));
    } else {
        assert(lines(plain_stream(tokens)) =~= Seq::<Seq<char>>::empty());
    }
}

/// Lines that carry no data add nothing to an answer, and neither does the
/// mark that ends a stream.
pub proof fn law_other_lines_add_nothing(line: Seq<char>)
    requires
        !"data:"@.is_prefix_of(line) || line == "data: [DONE]"@ || line == "data:[DONE]"@,
    ensures
        line_text(line) == Seq::<char>::empty(),
{
    reveal_strlit("data:");
    reveal_strlit("data: [DONE]");
    reveal_strlit("data:[DONE]");
    reveal_strlit("[DONE]");
    reveal_strlit(" ");
    if line == "data: [DONE]"@ {
        assert(line.skip(5).subrange(0, 1) =~= " "@);
        assert(line.skip(5).skip(1) =~= "[DONE]"@);
    } else if line == "data:[DONE]"@ {
        assert(line.skip(5) =~= "[DONE]"@);
        assert(line.skip(5)[0] == '[');
        assert(" "@[0] == ' ');
        if " "@.is_prefix_of(line.skip(5)) {
            assert(line.skip(5).subrange(0, 1)[0] == '[');
        }
    }
}

/// The tutor is never asked for the solution, whatever the lesson, the level
/// and the code.
pub proof fn law_never_asks_for_solution(
    lesson_id: Seq<char>,
    level: Seq<char>,
    question: Seq<char>,
    code: Seq<char>,
)
    ensures
        member(question_tree(lesson_id, level, question, code), "allow_solution"@) == Some(
            JsonTree::Bool(false),
        ),
{
    reveal_strlit("lesson_id");
    reveal_strlit("level");
    reveal_strlit("user_question");
    reveal_strlit("current_code");
    reveal_strlit("allow_solution");
    let list = question_tree(lesson_id, level, question, code)->Object_0;
    assert(list[0].0.len() == 9);
    assert(list[1].0.len() == 5);
    assert(list[2].0.len() == 13);
    assert(list[3].0.len() == 12);
    assert(list[4].0.len() == 14);
    reveal_with_fuel(member_in, 6);
    assert(list.skip(1).skip(1) =~= list.skip(2));
    assert(list.skip(2).skip(1) =~= list.skip(3));
    assert(list.skip(3).skip(1) =~= list.skip(4));
}

/// One way that a question may go: the states it goes through, what came to
/// each of them, and what was done on reaching it.
pub open spec fn ask_run(
    states: Seq<AskState>,
    events: Seq<AskEvent>,
    actions: Seq<AskAction>,
) -> bool {
    &&& states.len() == events.len() + 1
    &&& actions.len() == states.len()
    &&& states[0] is Credentials
    &&& actions[0] is ReadCredentials
    &&& forall|i: int|
        0 <= i < events.len() ==> ask_awaited(states[i], #[trigger] events[i]) && ask_leads(
            states[i],
            events[i],
            states[i + 1],
            actions[i + 1],
        )
}

/// Where a question is by its length.
proof fn lemma_ask_run(
    states: Seq<AskState>,
    events: Seq<AskEvent>,
    actions: Seq<AskAction>,
    k: int,
)
    requires
        ask_run(states, events, actions),
        0 <= k < states.len(),
    ensures
        states[k] is Credentials ==> k == 0,
        states[k] is Code ==> k == 1,
        states[k] is Answer ==> k == 2,
        k <= 3,
        states[k] is Done || k <= 2,
        states[k] is Done <==> actions[k] is Finish || actions[k] is Fail,
        states[k] matches AskState::Code(_, _, jwt) ==> (events[0] matches AskEvent::Credentials(
            Credentials::Stored(bytes),
        ) && valid_utf8(bytes@) && jwt@ == decode_utf8(bytes@)),
    decreases k,
{
    if k > 0 {
        lemma_ask_run(states, events, actions, k - 1);
        assert(ask_awaited(states[k - 1], events[k - 1]));
        assert(ask_leads(states[k - 1], events[k - 1], states[k], actions[k]));
    }
}

/// A question comes to an end after three events at most, and ends exactly
/// when the panel is given an answer or a failure to show.
pub proof fn law_question_ends(
    states: Seq<AskState>,
    events: Seq<AskEvent>,
    actions: Seq<AskAction>,
)
    requires
        ask_run(states, events, actions),
    ensures
        events.len() <= 3,
        events.len() == 3 ==> states[3] is Done,
        forall|k: int|
            0 <= k < states.len() ==> (states[k] is Done <==> #[trigger] actions[k] is Finish
                || actions[k] is Fail),
{
    lemma_ask_run(states, events, actions, states.len() - 1);
    assert forall|k: int| 0 <= k < states.len() implies (states[k] is Done
        <==> #[trigger] actions[k] is Finish || actions[k] is Fail) by {
        lemma_ask_run(states, events, actions, k);
    }
}

/// Nothing is asked without the token that the keychain has, and the question
/// carries it.
pub proof fn law_question_carries_token(
    states: Seq<AskState>,
    events: Seq<AskEvent>,
    actions: Seq<AskAction>,
    k: int,
    request: Request,
)
    requires
        ask_run(states, events, actions),
        0 <= k < actions.len(),
        actions[k] == AskAction::Send(request),
    ensures
        events.len() > 0,
        events[0] matches AskEvent::Credentials(Credentials::Stored(bytes)) && valid_utf8(bytes@)
            && request@.headers[0] == bearer(decode_utf8(bytes@)),
{
    lemma_ask_run(states, events, actions, k - 1);
    assert(ask_awaited(states[k - 1], events[k - 1]));
    assert(ask_leads(states[k - 1], events[k - 1], states[k], actions[k]));
}

/// From the moment that a question is asked the panel shows nothing of the one
/// before: first that it waits, then the answer or what went wrong, and all
/// the while what was asked.
pub proof fn law_panel_follows_question(
    before: TutorPanel,
    lesson_id: String,
    level: HintLevel,
    question: String,
    reply: String,
    err: String,
)
    ensures
        ({
            let asked = TutorPanel {
                current_lesson_id: Some(lesson_id),
                current_level: Some(level),
                current_question: Some(question),
                status: PanelStatus::Asking,
                reply: None,
                active: before.active,
            };
            let answered = TutorPanel {
                status: PanelStatus::Replied(reply@.len() as usize),
                reply: Some(reply),
                ..asked
            };
            let failed = TutorPanel { status: PanelStatus::Error(err), ..asked };
            &&& body_shown(asked.status, asked.reply).text == "Waiting for the AI Tutor..."@
            &&& body_shown(answered.status, answered.reply).text == reply@
            &&& body_shown(failed.status, failed.reply).text == err@
            &&& answered.current_lesson_id == Some(lesson_id)
            &&& failed.current_lesson_id == Some(lesson_id)
            &&& answered.current_question == Some(question)
            &&& failed.current_question == Some(question)
            &&& status_shown(answered.status).text == "replied · "@ + decimal(
                (reply@.len() as usize) as nat,
            ) + " chars"@
        }),
{
}

/// Whether a text can be what a line of the stream carries: it fits on a line,
/// is not empty and does not end the stream.
pub open spec fn fits_line(data: Seq<char>) -> bool {
    &&& data.len() > 0
    &&& data != "[DONE]"@
    &&& data.last() != '\r'
    &&& forall|i: int| 0 <= i < data.len() ==> #[trigger] data[i] != '\n'
}

/// Whether a text is the JSON of an object that wraps a piece of the answer:
/// under `delta`, or where there is none under `content`, or where there is
/// neither under `text`.
pub open spec fn wraps(data: Seq<char>, piece: Seq<char>) -> bool {
    json_read(data) matches Some(tree) && {
        ||| member(tree, "delta"@) == Some(JsonTree::Text(piece))
        ||| member(tree, "delta"@) is None && member(tree, "content"@) == Some(
            JsonTree::Text(piece),
        )
        ||| member(tree, "delta"@) is None && member(tree, "content"@) is None && member(
            tree,
            "text"@,
        ) == Some(JsonTree::Text(piece))
    }
}

/// What a line carries is what stands behind `data:` and one space.
proof fn lemma_payload(data: Seq<char>)
    requires
        fits_line(data),
    ensures
        payload("data: "@ + data) == Some(data),
        data[0] != ' ' ==> payload("data:"@ + data) == Some(data),
        without_return("data: "@ + data) == "data: "@ + data,
        forall|i: int|
            0 <= i < ("data: "@ + data).len() ==> #[trigger] ("data: "@ + data)[i] != '\n',
{
    reveal_strlit("data: ");
    reveal_strlit("data:");
    reveal_strlit(" ");
    let line = "data: "@ + data;
    assert(line.subrange(0, 5) =~= "data:"@);
    let rest = line.skip(5);
    assert(rest.subrange(0, 1) =~= " "@);
    assert(rest.skip(1) =~= data);
    assert(line.last() == data.last());
    assert forall|i: int| 0 <= i < line.len() implies #[trigger] line[i] != '\n' by {
        if i >= 6 {
            assert(line[i] == data[i - 6]);
        }
    }
    let tight = "data:"@ + data;
    assert(tight.subrange(0, 5) =~= "data:"@);
    assert(tight.skip(5) =~= data);
    if data[0] != ' ' && " "@.is_prefix_of(data) {
        assert(data.subrange(0, 1)[0] == ' ');
    }
}

/// A stream of lines that carry data starts with the first of them.
proof fn lemma_stream_front(datas: Seq<Seq<char>>)
    requires
        datas.len() > 0,
        fits_line(datas[0]),
    ensures
        lines(plain_stream(datas)) == seq!["data: "@ + datas[0]] + lines(
            plain_stream(datas.skip(1)),
        ),
{
    let line = "data: "@ + datas[0];
    let more = plain_stream(datas.skip(1));
    let s = plain_stream(datas);
    lemma_payload(datas[0]);
    assert(s =~= line + seq!['\n'] + more);
    let n = line.len() as int;
    assert forall|i: int| 0 <= i < n implies #[trigger] s[i] != '\n' by {
        assert(s[i] == line[i]);
    }
    assert(s[n] == '\n');
    lemma_before_char_is(s, '\n', n);
    assert(s.take(n) =~= line);
    assert(s.skip(n + 1) =~= more);
}

/// An answer that is sent as JSON objects is put together exactly: it is the
/// texts that they wrap, one after the other, with every character of them
/// kept, white space too, and none added.
pub proof fn law_wrapped_tokens_are_kept(datas: Seq<Seq<char>>, pieces: Seq<Seq<char>>)
    requires
        datas.len() == pieces.len(),
        forall|i: int| 0 <= i < datas.len() ==> fits_line(#[trigger] datas[i]),
        forall|i: int| 0 <= i < datas.len() ==> wraps(#[trigger] datas[i], pieces[i]),
    ensures
        stream_text(lines(plain_stream(datas))) == all_tokens(pieces),
    decreases datas.len(),
{
    if datas.len() > 0 {
        assert(fits_line(datas[0]) && wraps(datas[0], pieces[0]));
        lemma_stream_front(datas);
        lemma_payload(datas[0]);
        assert(line_text("data: "@ + datas[0]) == pieces[0]);
        let all = lines(plain_stream(datas));
        assert(all.skip(1) =~= lines(plain_stream(datas.skip(1))));
        assert forall|i: int| 0 <= i < datas.skip(1).len() implies fits_line(
            #[trigger] datas.skip(1)[i],
        ) && wraps(datas.skip(1)[i], pieces.skip(1)[i]) by {
            assert(datas.skip(1)[i] == datas[i + 1]);
            assert(pieces.skip(1)[i] == pieces[i + 1]);
        }
        law_wrapped_tokens_are_kept(datas.skip(1), pieces.skip(1));
    } else {
        assert(lines(plain_stream(datas)) =~= Seq::<Seq<char>>::empty());
    }
}

/// What wraps no piece of the answer is a piece itself, as it stands: what is no
/// JSON, what is no object or has none of the three members, and what has
/// something else than a text there.
pub proof fn law_unwrapped_data_is_kept(datas: Seq<Seq<char>>)
    requires
        forall|i: int| 0 <= i < datas.len() ==> fits_line(#[trigger] datas[i]),
        forall|i: int, piece: Seq<char>|
            0 <= i < datas.len() ==> !#[trigger] wraps(datas[i], piece),
    ensures
        stream_text(lines(plain_stream(datas))) == all_tokens(datas),
    decreases datas.len(),
{
    if datas.len() > 0 {
        let data = datas[0];
        assert(fits_line(datas[0]));
        lemma_stream_front(datas);
        lemma_payload(data);
        assert(line_text("data: "@ + data) == data) by {
            match chunk_member(json_read(data)) {
                Some(JsonTree::Text(s)) => {
                    assert(wraps(datas[0], s));
                },
                _ => {},
            }
        }
        let all = lines(plain_stream(datas));
        assert(all.skip(1) =~= lines(plain_stream(datas.skip(1))));
        assert forall|i: int| 0 <= i < datas.skip(1).len() implies fits_line(
            #[trigger] datas.skip(1)[i],
        ) by {
            assert(datas.skip(1)[i] == datas[i + 1]);
        }
        assert forall|i: int, piece: Seq<char>|
            0 <= i < datas.skip(1).len() implies !#[trigger] wraps(datas.skip(1)[i], piece) by {
            assert(!wraps(datas[i + 1], piece));
        }
        law_unwrapped_data_is_kept(datas.skip(1));
    } else {
        assert(lines(plain_stream(datas)) =~= Seq::<Seq<char>>::empty());
    }
}

/// The lines of a stream count one by one, in their order: what some lines carry
/// and what further lines carry is what all of them carry. The space behind
/// `data:` may be missing, and a line without anything behind it carries
/// nothing.
pub proof fn law_lines_count_one_by_one(a: Seq<Seq<char>>, b: Seq<Seq<char>>, data: Seq<char>)
    ensures
        stream_text(a + b) == stream_text(a) + stream_text(b),
        stream_text(Seq::<Seq<char>>::empty()).len() == 0,
        fits_line(data) && data[0] != ' ' ==> stream_text(seq!["data:"@ + data]) == stream_text(
            seq!["data: "@ + data],
        ),
        stream_text(seq!["data:"@]).len() == 0,
        stream_text(seq!["data: "@]).len() == 0,
        !"data:"@.is_prefix_of(data) ==> stream_text(seq![data]).len() == 0,
        stream_text(seq!["data: [DONE]"@]).len() == 0,
    decreases a.len(),
{
    if a.len() == 0 {
        assert(a + b =~= b);
        assert(stream_text(a) + stream_text(b) =~= stream_text(b));
    } else {
        assert((a + b).skip(1) =~= a.skip(1) + b);
        law_lines_count_one_by_one(a.skip(1), b, data);
        assert(stream_text(a + b) =~= stream_text(a) + stream_text(b));
    }
    assert forall|line: Seq<char>| #[trigger]
        stream_text(seq![line]) == line_text(line) by {
        let one = seq![line];
        assert(one.skip(1) =~= Seq::<Seq<char>>::empty());
        assert(stream_text(one.skip(1)).len() == 0);
        assert(one[0] == line);
        assert(stream_text(one) =~= line_text(line));
    }
    if fits_line(data) {
        lemma_payload(data);
    }
    law_other_lines_add_nothing("data: [DONE]"@);
    if !"data:"@.is_prefix_of(data) {
        law_other_lines_add_nothing(data);
    }
    reveal_strlit("data:");
    reveal_strlit("data: ");
    reveal_strlit(" ");
    assert("data:"@.subrange(0, 5) =~= "data:"@);
    assert("data:"@.skip(5).len() == 0);
    assert("data: "@.subrange(0, 5) =~= "data:"@);
    assert("data: "@.skip(5) =~= " "@);
    assert(" "@.subrange(0, 1) =~= " "@);
    assert(" "@.skip(1).len() == 0);
}

/// Of the three members the first that is there decides, and its text is the
/// piece; where it is no text, or none of them is there, the data stands.
pub proof fn law_first_field_decides(data: Seq<char>, s: String, second: Field, third: Field)
    ensures
        picked(data, Field::Text(s), second, third) == s@,
        picked(data, Field::Other, second, third) == data,
        picked(data, Field::Missing, Field::Text(s), third) == s@,
        picked(data, Field::Missing, Field::Other, third) == data,
        picked(data, Field::Missing, Field::Missing, Field::Text(s)) == s@,
        picked(data, Field::Missing, Field::Missing, Field::Other) == data,
        picked(data, Field::Missing, Field::Missing, Field::Missing) == data,
{
}

/// An answer counts where the gateway answered with a status in the two
/// hundreds and the whole text came: then it is what the lines of that text
/// carry. Any other status is told with the text that came, and a fault on the
/// way is told as it is.
pub proof fn law_answer_needs_success(status: u16, shown: String, text: String, error: String)
    ensures
        200 <= status <= 299 ==> answer(
            Sent::Answered { status, shown, body: Body::Whole(text) },
        ) == Ok::<Seq<char>, Seq<char>>(stream_text(lines(text@))),
        200 <= status <= 299 ==> answer(
            Sent::Answered { status, shown, body: Body::Broken { partial: text, error } },
        ) == Err::<Seq<char>, Seq<char>>(error@),
        !(200 <= status <= 299) ==> answer(
            Sent::Answered { status, shown, body: Body::Whole(text) },
        ) == Err::<Seq<char>, Seq<char>>("/tutor/chat returned "@ + shown@ + ": "@ + text@),
        !(200 <= status <= 299) ==> answer(
            Sent::Answered { status, shown, body: Body::Broken { partial: text, error } },
        ) == Err::<Seq<char>, Seq<char>>("/tutor/chat returned "@ + shown@ + ": "@ + text@),
        answer(Sent::Failed(error)) == Err::<Seq<char>, Seq<char>>(error@),
        answer(Sent::Unmade(error)) == Err::<Seq<char>, Seq<char>>(error@),
{
    reveal_strlit("/tutor/chat");
    reveal_strlit(" returned ");
    reveal_strlit("/tutor/chat returned ");
    assert("/tutor/chat"@ + " returned "@ =~= "/tutor/chat returned "@);
}

/// A question goes to the tutor with the token, and says the lesson, the level,
/// the fixed question and the student's code; without code that could be read
/// the code is empty. What it asks for is a stream.
pub proof fn law_question_says_all(
    lesson_id: String,
    level: HintLevel,
    jwt: String,
    code: Option<String>,
    next: AskState,
    action: AskAction,
    level_text: Seq<char>,
    code_text: Seq<char>,
)
    requires
        ask_leads(AskState::Code(lesson_id, level, jwt), AskEvent::Code(code), next, action),
        level_text == (match level {
            HintLevel::L1 => "L1"@,
            HintLevel::L2 => "L2"@,
            HintLevel::L3 => "L3"@,
        }),
        match code {
            Some(code) => code_text == code@,
            None => code_text.len() == 0,
        },
    ensures
        next is Answer,
        action matches AskAction::Send(request) && {
            &&& request@.method == Method::Post
            &&& request@.url == "https://wolfcode-bff.quake0day.workers.dev/tutor/chat"@
            &&& request@.headers == seq![
                ("Authorization"@, "Bearer "@ + jwt@),
                ("Content-Type"@, "application/json"@),
                ("Accept"@, "text/event-stream"@),
            ]
            &&& request@.body == Some(
                json_text(
                    JsonTree::Object(
                        seq![
                            ("lesson_id"@, JsonTree::Text(lesson_id@)),
                            ("level"@, JsonTree::Text(level_text)),
                            (
                                "user_question"@,
                                JsonTree::Text(
                                    "I'm not sure what to do next. Help me at this hint level."@,
                                ),
                            ),
                            ("current_code"@, JsonTree::Text(code_text)),
                            ("allow_solution"@, JsonTree::Bool(false)),
                        ],
                    ),
                ),
            )
        },
{
    reveal_strlit("https://wolfcode-bff.quake0day.workers.dev");
    reveal_strlit("/tutor/chat");
    reveal_strlit("https://wolfcode-bff.quake0day.workers.dev/tutor/chat");
    assert(BFF_URL@ + "/tutor/chat"@
        =~= "https://wolfcode-bff.quake0day.workers.dev/tutor/chat"@);
    let request = action->Send_0;
    assert(request@.headers =~= seq![
        ("Authorization"@, "Bearer "@ + jwt@),
        ("Content-Type"@, "application/json"@),
        ("Accept"@, "text/event-stream"@),
    ]);
    let text = match code {
        Some(code) => code@,
        None => seq![],
    };
    assert(text =~= code_text);
    assert(request@.body == Some(
        json_text(question_tree(lesson_id@, level_text, QUESTION@, code_text)),
    ));
}

/// A question needs a token that can be read. Where there is none the student
/// is told which of the reasons it is; where there is one the question goes on
/// with it, about the same lesson and at the same level.
pub proof fn law_question_needs_a_token(
    lesson_id: String,
    level: HintLevel,
    error: String,
    bytes: Vec<u8>,
    next: AskState,
    action: AskAction,
)
    ensures
        ask_leads(
            AskState::Credentials(lesson_id, level),
            AskEvent::Credentials(Credentials::Unreadable(error)),
            next,
            action,
        ) ==> next is Done && (action matches AskAction::Fail(e) && e@ == "keychain read failed: "@
            + error@),
        ask_leads(
            AskState::Credentials(lesson_id, level),
            AskEvent::Credentials(Credentials::Absent),
            next,
            action,
        ) ==> next is Done && (action matches AskAction::Fail(e) && e@
            == "no JWT — run SignInFromFile"@),
        valid_utf8(bytes@) && ask_leads(
            AskState::Credentials(lesson_id, level),
            AskEvent::Credentials(Credentials::Stored(bytes)),
            next,
            action,
        ) ==> action is ReadCode && (next matches AskState::Code(id, same, jwt) && id == lesson_id
            && same == level && jwt@ == decode_utf8(bytes@)),
        !valid_utf8(bytes@) && ask_leads(
            AskState::Credentials(lesson_id, level),
            AskEvent::Credentials(Credentials::Stored(bytes)),
            next,
            action,
        ) ==> next is Done && (action matches AskAction::Fail(e) && e@ == "JWT not UTF-8: "@
            + utf8_fault(bytes@)),
{
}

/// What came of a question is shown: the answer where there is one, and else
/// what went wrong.
pub proof fn law_outcome_is_shown(sent: Sent, next: AskState, action: AskAction)
    requires
        ask_leads(AskState::Answer, AskEvent::Answer(sent), next, action),
    ensures
        next is Done,
        match answer(sent) {
            Ok(text) => action matches AskAction::Finish(reply) && reply@ == text,
            Err(e) => action matches AskAction::Fail(message) && message@ == e,
        },
{
}

/// The panel shows how far the last question has come, and what came of it: a
/// hint on how to ask before the first one, a word while it waits, the whole
/// answer, or the whole of what went wrong.
pub proof fn law_panel_shows_where_a_question_is(n: usize, reply: String, error: String)
    ensures
        status_shown(PanelStatus::Idle) == (LabelView { text: "idle"@, tone: Tone::Muted }),
        status_shown(PanelStatus::Asking) == (LabelView { text: "asking..."@, tone: Tone::Info }),
        status_shown(PanelStatus::Replied(n)) == (LabelView {
            text: "replied · "@ + decimal(n as nat) + " chars"@,
            tone: Tone::Success,
        }),
        status_shown(PanelStatus::Error(error)) == (LabelView {
            text: "error"@,
            tone: Tone::Error,
        }),
        body_shown(PanelStatus::Idle, Some(reply)) == (LabelView {
            text:
                "Open a Python lesson and run\n`WolfCode Tutor: Ask L1` from the command palette."@,
            tone: Tone::Muted,
        }),
        body_shown(PanelStatus::Idle, None) == body_shown(PanelStatus::Idle, Some(reply)),
        body_shown(PanelStatus::Asking, Some(reply)) == (LabelView {
            text: "Waiting for the AI Tutor..."@,
            tone: Tone::Muted,
        }),
        body_shown(PanelStatus::Asking, None) == body_shown(PanelStatus::Asking, Some(reply)),
        body_shown(PanelStatus::Replied(n), Some(reply)) == (LabelView {
            text: reply@,
            tone: Tone::Default,
        }),
        body_shown(PanelStatus::Replied(n), None) == (LabelView {
            text: "(empty reply)"@,
            tone: Tone::Muted,
        }),
        body_shown(PanelStatus::Error(error), Some(reply)) == (LabelView {
            text: error@,
            tone: Tone::Error,
        }),
        body_shown(PanelStatus::Error(error), None) == body_shown(
            PanelStatus::Error(error),
            Some(reply),
        ),
{
}

/// A question waits for the token, then for the code, then for the answer, and
/// for nothing when it is done.
pub proof fn law_question_waits_in_turn(
    lesson_id: String,
    level: HintLevel,
    jwt: String,
    event: AskEvent,
)
    ensures
        ask_awaited(AskState::Credentials(lesson_id, level), event) <==> event is Credentials,
        ask_awaited(AskState::Code(lesson_id, level, jwt), event) <==> event is Code,
        ask_awaited(AskState::Answer, event) <==> event is Answer,
        !ask_awaited(AskState::Done, event),
{
}

/// A single line carries one piece, whatever characters it holds: the text that
/// its data wraps, and where it wraps none the data itself.
pub proof fn law_line_carries_its_piece(data: Seq<char>, piece: Seq<char>)
    requires
        data.len() > 0,
        data != "[DONE]"@,
    ensures
        wraps(data, piece) ==> stream_text(seq!["data: "@ + data]) == piece,
        (forall|other: Seq<char>| !#[trigger] wraps(data, other)) ==> stream_text(
            seq!["data: "@ + data],
        ) == data,
{
    reveal_strlit("data: ");
    reveal_strlit("data:");
    reveal_strlit(" ");
    let line = "data: "@ + data;
    assert(line.subrange(0, 5) =~= "data:"@);
    assert(line.skip(5).subrange(0, 1) =~= " "@);
    assert(line.skip(5).skip(1) =~= data);
    let one = seq![line];
    assert(one.skip(1) =~= Seq::<Seq<char>>::empty());
    assert(stream_text(one.skip(1)).len() == 0);
    assert(one[0] == line);
    assert(stream_text(one) =~= line_text(line));
    match chunk_member(json_read(data)) {
        Some(JsonTree::Text(s)) => {
            assert(wraps(data, s));
        },
        _ => {},
    }
}

} // verus!
