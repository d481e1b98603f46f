//! `spacebot chat`: a portal conversation with an agent.
//!
//! Messages go out as requests; replies arrive on the global event stream,
//! filtered to this conversation. Only the final message of a turn is printed,
//! so lines print whole.
use vstd::prelude::*;
use crate::cli::output;
use crate::cli::output::{LineModel, Report};
use crate::cli::request;
use crate::cli::request::{Method, Query, Request, RequestModel};
use crate::json;
use crate::json::{Body, Json, JsonModel};
use crate::text;

verus! {

broadcast use vstd::seq::group_seq_axioms;

/// What conversation is asked for.
#[derive(Debug)]
pub struct ChatArgs {
    /// Agent ID (defaults to the first configured agent)
    pub agent: Option<String>,
    /// Resume an existing conversation session
    pub session: Option<String>,
    /// Sender display name
    pub name: String,
}

/// The first agent of a listing.
pub open spec fn first_agent(response: JsonModel) -> Option<Seq<char>> {
    let agents = response.at("agents"@).items();
    if agents.len() == 0 {
        None
    } else {
        agents[0].at("id"@).as_text()
    }
}

/// The agent of a listing that a conversation without a named one is with.
pub fn pick_agent(response: &Json) -> (agent: Result<String, String>)
    ensures
        match agent {
            Ok(agent) => first_agent(response@) == Some(agent@),
            Err(reason) => first_agent(response@) is None && reason@ == "no agents available — is one configured?"@,
        },
{
    if let Some(agents) = response.items("agents") {
        if agents.len() > 0 {
            assert(json::json_models(agents@)[0] == agents@[0]@);
            if let Some(id) = agents[0].text("id") {
                return Ok(id);
            }
        }
    }
    Err("no agents available — is one configured?".to_owned())
}

/// Asks for the end of a session's history.
pub fn ask_history(agent_id: &str, session_id: &str) -> (request: Request)
    ensures
        request@ == request::reads(
            request::with_query(
                "portal/history"@,
                request::with_number(
                    request::with_text(
                        request::with_text(request::no_params(), "agent_id"@, agent_id@),
                        "session_id"@,
                        session_id@,
                    ),
                    "limit"@,
                    20,
                ),
            ),
        ),
{
    let mut query = Query::new();
    query.text("agent_id", agent_id);
    query.text("session_id", session_id);
    query.number("limit", 20);
    Request::get(query.after("portal/history"))
}

/// The line of an earlier message.
pub open spec fn history_line(message: JsonModel) -> LineModel {
    LineModel::Out(message.text_or("role"@, ""@) + ": "@ + message.text_or("content"@, ""@))
}

/// Prints a session's history.
pub fn print_history(history: &Json) -> (report: Report)
    ensures
        report@ == history@.items().map_values(|message: JsonModel| history_line(message)),
{
    let ghost all = history@.items().map_values(|message: JsonModel| history_line(message));
    let mut report = Report::new();
    if let Json::List(messages) = history {
        proof {
            json::list_model(*messages);
        }
        let ghost models = json::json_models(messages@);
        let mut k: usize = 0;
        assert(report@ =~= all.take(0));
        while k < messages.len()
            invariant
                models == json::json_models(messages@),
                all == models.map_values(|message: JsonModel| history_line(message)),
                k <= messages@.len(),
                report@ == all.take(k as int),
            decreases messages@.len() - k,
        {
            let mut line = messages[k].text_or("role", "");
            line.push_str(": ");
            line.push_str(messages[k].text_or("content", "").as_str());
            report.out(line.as_str());
            assert(models[k as int] == messages@[k as int]@);
            assert(report@ =~= all.take(k + 1));
            k = k + 1;
        }
        assert(all.take(k as int) =~= all);
    } else {
        assert(report@ =~= all);
    }
    report
}

/// Prints what conversation this is.
pub fn print_opening(agent_id: &str, session_id: &str) -> (report: Report)
    ensures
        report@ == seq![
            LineModel::Note("Chatting with "@ + agent_id@ + " (session: "@ + session_id@ + ")"@),
            LineModel::Note("Ctrl-D or /quit to exit."@),
        ],
{
    let mut line = "Chatting with ".to_owned();
    line.push_str(agent_id);
    line.push_str(" (session: ");
    line.push_str(session_id);
    line.push_str(")");
    let mut report = output::message(line.as_str());
    report.err("Ctrl-D or /quit to exit.");
    assert(report@ =~= seq![
        LineModel::Note("Chatting with "@ + agent_id@ + " (session: "@ + session_id@ + ")"@),
        LineModel::Note("Ctrl-D or /quit to exit."@),
    ]);
    report
}

/// Prints how to take a session up again.
pub fn print_closing(session_id: &str) -> (report: Report)
    ensures
        report@ == seq![
            LineModel::Note(
                "Session: "@ + session_id@ + " (resume with `spacebot chat --session "@ + session_id@ + "`)"@,
            ),
        ],
{
    let mut line = "Session: ".to_owned();
    line.push_str(session_id);
    line.push_str(" (resume with `spacebot chat --session ");
    line.push_str(session_id);
    line.push_str("`)");
    output::message(line.as_str())
}

// ---------------------------------------------------------------------------
// Input
// ---------------------------------------------------------------------------

/// What a line of input asks for.
#[derive(Debug)]
pub enum Input {
    Quit,
    /// Nothing: prompt again.
    Blank,
    Send(Request),
}

/// The request that sends a message.
pub open spec fn message_request(
    agent_id: Seq<char>,
    session_id: Seq<char>,
    sender: Seq<char>,
    message: Seq<char>,
) -> RequestModel {
    let body = json::with_text(json::no_members(), "agent_id"@, agent_id);
    let body = json::with_text(body, "session_id"@, session_id);
    let body = json::with_text(body, "sender_name"@, sender);
    let body = json::with_text(body, "message"@, message);
    request::sends(Method::Post, "portal/send"@, body)
}

/// Decides what a line of input asks for.
pub fn read_line(agent_id: &str, session_id: &str, sender: &str, line: &str) -> (input: Input)
    ensures
        match input {
            Input::Quit => text::trimmed(line@) == "/quit"@,
            Input::Blank => text::trimmed(line@) != "/quit"@ && text::trimmed(line@).len() == 0,
            Input::Send(request) => text::trimmed(line@) != "/quit"@ && text::trimmed(line@).len() > 0 && request@
                == message_request(agent_id@, session_id@, sender@, text::trimmed(line@)),
        },
{
    let message = text::trim(line);
    if text::same(message.as_str(), "/quit") {
        return Input::Quit;
    }
    if message.as_str().is_empty() {
        return Input::Blank;
    }
    let mut body = Body::new();
    body.text("agent_id", agent_id);
    body.text("session_id", session_id);
    body.text("sender_name", sender);
    body.text("message", message.as_str());
    Input::Send(Request::with(Method::Post, "portal/send".to_owned(), body))
}

// ---------------------------------------------------------------------------
// Events
// ---------------------------------------------------------------------------

/// A line without the carriage returns it ends in.
pub open spec fn without_returns(line: Seq<char>) -> Seq<char>
    decreases line.len(),
{
    if line.len() > 0 && line.last() == '\r' {
        without_returns(line.drop_last())
    } else {
        line
    }
}

/// The payload of a line of the event stream, where it has one.
pub open spec fn payload_of(line: Seq<char>) -> Option<Seq<char>> {
    let whole = without_returns(line);
    if text::begins(whole, "data: "@) {
        Some(whole.subrange("data: "@.len() as int, whole.len() as int))
    } else {
        None
    }
}

/// The payloads of lines.
pub open spec fn payloads(lines: Seq<Seq<char>>) -> Seq<Seq<char>>
    decreases lines.len(),
{
    if lines.len() == 0 {
        Seq::empty()
    } else {
        match payload_of(lines.last()) {
            Some(payload) => payloads(lines.drop_last()).push(payload),
            None => payloads(lines.drop_last()),
        }
    }
}

/// What is left of a stream behind its last line break.
pub open spec fn unfinished(stream: Seq<char>) -> Seq<char> {
    text::split_on(stream, '\n').last()
}

/// The payloads of the finished lines of a stream.
pub open spec fn finished(stream: Seq<char>) -> Seq<Seq<char>> {
    payloads(text::split_on(stream, '\n').drop_last())
}

/// The part of the event stream that is no whole line yet.
#[derive(Debug)]
pub struct EventBuffer {
    pub pending: String,
}

fn read_payload(line: &str) -> (payload: Option<String>)
    ensures
        text::opt_text(payload) == payload_of(line@),
{
    proof {
        reveal_strlit("data: ");
    }
    let chars = text::chars_of(line);
    let mut end: usize = chars.len();
    assert(chars@.take(end as int) =~= line@);
    while end > 0 && chars[end - 1] == '\r'
        invariant
            chars@ == line@,
            end <= chars@.len(),
            without_returns(chars@.take(end as int)) == without_returns(line@),
        decreases end,
    {
        assert(chars@.take(end as int).drop_last() =~= chars@.take(end - 1));
        end = end - 1;
    }
    let whole = text::string_between(&chars, 0, end);
    assert(whole@ =~= chars@.take(end as int));
    if text::starts_with(whole.as_str(), "data: ") {
        let payload = text::string_between(&chars, 6, end);
        assert(payload@ =~= whole@.subrange(6, whole@.len() as int));
        Some(payload)
    } else {
        None
    }
}

impl EventBuffer {
    /// A buffer at the start of a stream.
    pub fn new() -> (buffer: Self)
        ensures
            buffer.pending@ == Seq::<char>::empty(),
    {
        EventBuffer { pending: String::new() }
    }

    /// Takes in a piece of the stream and gives the payloads of the lines that
    /// are whole now.
    pub fn feed(&mut self, chunk: &str) -> (events: Vec<String>)
        ensures
            text::texts(events@) == finished(old(self).pending@ + chunk@),
            final(self).pending@ == unfinished(old(self).pending@ + chunk@),
    {
        broadcast use text::texts_push;

        let ghost stream = self.pending@ + chunk@;
        let mut whole = self.pending.clone();
        whole.push_str(chunk);
        let mut parts = text::split(whole.as_str(), '\n');
        let ghost all = text::texts(parts@);
        let ghost lines = all.drop_last();
        let count: usize = parts.len() - 1;
        let mut events: Vec<String> = Vec::new();
        let mut k: usize = 0;
        assert(lines.take(0) =~= Seq::<Seq<char>>::empty());
        assert(text::texts(events@) =~= payloads(lines.take(0)));
        while k < count
            invariant
                all == text::texts(parts@),
                lines == all.drop_last(),
                count == parts@.len() - 1,
                k <= count,
                text::texts(events@) == payloads(lines.take(k as int)),
            decreases count - k,
        {
            broadcast use text::texts_push;

            assert(lines.take(k + 1).drop_last() =~= lines.take(k as int));
            assert(lines[k as int] == parts@[k as int]@);
            if let Some(payload) = read_payload(parts[k].as_str()) {
                events.push(payload);
            }
            k = k + 1;
        }
        assert(lines.take(k as int) =~= lines);
        assert(all.last() == parts@[count as int]@);
        self.pending = parts.remove(count);
        events
    }
}

/// The reply that an event brings to a conversation, if any: the text of an
/// agent's message to the session, or to a channel whose id ends in it.
pub open spec fn reply_in(event: JsonModel, agent_id: Seq<char>, session_id: Seq<char>) -> Option<Seq<char>> {
    let channel = event.text_or("channel_id"@, ""@);
    if event.at("type"@).as_text() != Some("outbound_message"@) || event.at("agent_id"@).as_text() != Some(agent_id) {
        None
    } else if channel != session_id && !text::ends(channel, session_id) {
        None
    } else {
        event.at("text"@).as_text()
    }
}

fn holds(value: &Option<String>, wanted: &str) -> (yes: bool)
    ensures
        yes == (text::opt_text(*value) == Some(wanted@)),
{
    match value {
        Some(value) => text::same(value.as_str(), wanted),
        None => false,
    }
}

/// The reply that an event brings to a conversation, if any.
pub fn reply_of(event: &Json, agent_id: &str, session_id: &str) -> (reply: Option<String>)
    ensures
        text::opt_text(reply) == reply_in(event@, agent_id@, session_id@),
{
    if !holds(&event.text("type"), "outbound_message") || !holds(&event.text("agent_id"), agent_id) {
        return None;
    }
    let channel = event.text_or("channel_id", "");
    if !text::same(channel.as_str(), session_id) && !text::ends_with(channel.as_str(), session_id) {
        return None;
    }
    event.text("text")
}

/// The reply that the data of an event brings to a conversation, if any. Data
/// that is no JSON brings none.
pub fn reply_from(data: &str, agent_id: &str, session_id: &str) -> (reply: Option<String>)
    ensures
        text::opt_text(reply) == (match json::json_text(data@) {
            Ok(event) => reply_in(event, agent_id@, session_id@),
            Err(_) => None,
        }),
{
    match json::parse_json(data) {
        Ok(event) => reply_of(&event, agent_id, session_id),
        Err(_) => None,
    }
}

// ---------------------------------------------------------------------------
// Laws
// ---------------------------------------------------------------------------

proof fn payloads_concat(a: Seq<Seq<char>>, b: Seq<Seq<char>>)
    ensures
        payloads(a + b) == payloads(a) + payloads(b),
    decreases b.len(),
{
    if b.len() == 0 {
        assert(a + b =~= a);
        assert(payloads(a) + payloads(b) =~= payloads(a));
    } else {
        payloads_concat(a, b.drop_last());
        assert((a + b).drop_last() =~= a + b.drop_last());
        assert(payloads(a + b) =~= payloads(a) + payloads(b));
    }
}

proof fn split_continues(a: Seq<char>, b: Seq<char>)
    ensures
        text::split_on(a, '\n').len() >= 1,
        text::split_on(a + b, '\n') == text::split_on(a, '\n').drop_last() + text::split_on(unfinished(a) + b, '\n'),
    decreases b.len(),
{
    text::split_on_nonempty(a, '\n');
    if b.len() == 0 {
        assert(a + b =~= a);
        assert(unfinished(a) + b =~= unfinished(a));
        a_last_part_is_one_line(a);
        assert(text::split_on(a, '\n') =~= text::split_on(a, '\n').drop_last() + seq![unfinished(a)]);
    } else {
        let front = b.drop_last();
        split_continues(a, front);
        assert((a + b).drop_last() =~= a + front);
        assert((unfinished(a) + b).drop_last() =~= unfinished(a) + front);
        text::split_on_nonempty(unfinished(a) + front, '\n');
        let done = text::split_on(a, '\n').drop_last();
        let rest = text::split_on(unfinished(a) + front, '\n');
        assert((done + rest).drop_last() =~= done + rest.drop_last());
        assert((done + rest).last() == rest.last());
        assert(text::split_on(a + b, '\n') =~= done + text::split_on(unfinished(a) + b, '\n'));
    }
}

proof fn a_last_part_is_one_line(s: Seq<char>)
    ensures
        text::split_on(unfinished(s), '\n') == seq![unfinished(s)],
    decreases s.len(),
{
    text::split_on_nonempty(s, '\n');
    if s.len() == 0 {
        assert(unfinished(s) =~= Seq::<char>::empty());
        assert(text::split_on(unfinished(s), '\n') =~= seq![unfinished(s)]);
    } else {
        let front = s.drop_last();
        text::split_on_nonempty(front, '\n');
        a_last_part_is_one_line(front);
        if s.last() == '\n' {
            assert(unfinished(s) =~= Seq::<char>::empty());
            assert(text::split_on(unfinished(s), '\n') =~= seq![unfinished(s)]);
        } else {
            let part = unfinished(front);
            assert(unfinished(s) == part.push(s.last()));
            assert(part.push(s.last()).drop_last() =~= part);
            let split = text::split_on(part, '\n');
            assert(split.drop_last() =~= Seq::<Seq<char>>::empty());
            assert(text::split_on(unfinished(s), '\n') =~= seq![unfinished(s)]);
        }
    }
}

/// How a stream is cut into pieces does not matter: two pieces one after the
/// other give the events, and leave the rest, of both at once.
pub proof fn law_cuts_do_not_matter(pending: Seq<char>, a: Seq<char>, b: Seq<char>)
    ensures
        finished(pending + a) + finished(unfinished(pending + a) + b) == finished(pending + (a + b)),
        unfinished(unfinished(pending + a) + b) == unfinished(pending + (a + b)),
{
    let stream = pending + a;
    assert(stream + b =~= pending + (a + b));
    split_continues(stream, b);
    let done = text::split_on(stream, '\n').drop_last();
    let rest = text::split_on(unfinished(stream) + b, '\n');
    text::split_on_nonempty(unfinished(stream) + b, '\n');
    assert((done + rest).drop_last() =~= done + rest.drop_last());
    payloads_concat(done, rest.drop_last());
}

/// Events of other agents bring no reply.
pub proof fn law_other_agents_are_not_heard(event: JsonModel, agent_id: Seq<char>, session_id: Seq<char>)
    requires
        event.at("agent_id"@).as_text() != Some(agent_id),
    ensures
        reply_in(event, agent_id, session_id) is None,
{
}

/// A message goes to the portal with its agent, its session and its sender.
pub proof fn law_a_message_says_whom_it_is_for(
    agent_id: Seq<char>,
    session_id: Seq<char>,
    sender: Seq<char>,
    message: Seq<char>,
)
    ensures
        ({
            let asked = message_request(agent_id, session_id, sender, message);
            &&& asked.method == Method::Post
            &&& asked.path == "portal/send"@
            &&& asked.body->0.at("agent_id"@).as_text() == Some(agent_id)
            &&& asked.body->0.at("session_id"@).as_text() == Some(session_id)
            &&& asked.body->0.at("sender_name"@).as_text() == Some(sender)
            &&& asked.body->0.at("message"@).as_text() == Some(message)
        }),
{
    broadcast use json::member_after_set;

    reveal_strlit("agent_id");
    reveal_strlit("session_id");
    reveal_strlit("sender_name");
    reveal_strlit("message");
    assert("agent_id"@.len() == 8 && "session_id"@.len() == 10 && "sender_name"@.len() == 11 && "message"@.len() == 7);
}

/// An event's payload is what stands behind its tag, without the returns at the
/// end; any other line has none.
pub proof fn law_a_payload_stands_behind_its_tag(payload: Seq<char>)
    ensures
        payload.len() == 0 || payload.last() != '\r' ==> payload_of("data: "@ + payload) == Some(payload),
        payload.len() == 0 || payload.last() != '\r' ==> payload_of(("data: "@ + payload).push('\r')) == Some(payload),
        !text::begins(without_returns(payload), "data: "@) ==> payload_of(payload) is None,
{
    reveal_strlit("data: ");
    let line = "data: "@ + payload;
    if payload.len() == 0 || payload.last() != '\r' {
        assert(line.last() == (if payload.len() == 0 {
            ' '
        } else {
            payload.last()
        }));
        assert(without_returns(line) == line);
        assert(line.push('\r').drop_last() =~= line);
        assert(without_returns(line.push('\r')) == line);
        assert(line.subrange(0, 6) =~= "data: "@);
        assert(line.subrange(6, line.len() as int) =~= payload);
    }
}

/// Payloads come in the order of their lines.
pub proof fn law_payloads_keep_their_order(first: Seq<Seq<char>>, second: Seq<Seq<char>>)
    ensures
        payloads(first + second) == payloads(first) + payloads(second),
        first.len() == 1 ==> (match payload_of(first[0]) {
            Some(payload) => payloads(first) == seq![payload],
            None => payloads(first).len() == 0,
        }),
    decreases second.len(),
{
    let all = first + second;
    if second.len() == 0 {
        assert(all =~= first);
        assert(payloads(second) =~= Seq::<Seq<char>>::empty());
    } else {
        assert(all.drop_last() =~= first + second.drop_last());
        assert(all.last() == second.last());
        law_payloads_keep_their_order(first, second.drop_last());
    }
    assert(payloads(all) =~= payloads(first) + payloads(second));
    if first.len() == 1 {
        assert(first.last() == first[0]);
        assert(payloads(first.drop_last()) =~= Seq::<Seq<char>>::empty());
        if let Some(payload) = payload_of(first[0]) {
            assert(payloads(first) =~= seq![payload]);
        }
    }
}

/// What is not yet ended by a line feed waits.
pub proof fn law_an_unfinished_line_waits(stream: Seq<char>)
    ensures
        !unfinished(stream).contains('\n'),
        text::ends(stream, unfinished(stream)),
        !stream.contains('\n') ==> unfinished(stream) == stream && finished(stream).len() == 0,
{
    let parts = text::split_on(stream, '\n');
    text::split_on_nonempty(stream, '\n');
    text::law_splitting_is_undone_by_joining(stream, '\n');
    assert(!parts[parts.len() - 1].contains('\n'));
    let last = parts.last();
    if parts.len() == 1 {
        assert(stream == last);
        assert(stream.subrange(0, stream.len() as int) =~= stream);
    } else {
        let before = text::joined(parts.drop_last(), seq!['\n']) + seq!['\n'];
        assert(stream == before + last);
        text::law_parts_occur(before, last, Seq::empty());
    }
    if !stream.contains('\n') {
        text::law_lines_hold_no_line_feed(stream);
        if stream.len() == 0 {
            assert(parts.drop_last() =~= Seq::<Seq<char>>::empty());
        } else {
            single_part(stream);
            assert(parts.drop_last() =~= Seq::<Seq<char>>::empty());
        }
    }
}

proof fn single_part(s: Seq<char>)
    requires
        !s.contains('\n'),
    ensures
        text::split_on(s, '\n') == seq![s],
    decreases s.len(),
{
    if s.len() > 0 {
        let front = s.drop_last();
        assert forall|i: int| 0 <= i < front.len() implies #[trigger] front[i] != '\n' by {
            assert(s.contains(s[i]));
        }
        single_part(front);
        assert(s.contains(s[s.len() - 1]));
        assert(front.push(s.last()) =~= s);
        assert(seq![front].last() == front);
        assert(text::split_on(s, '\n') =~= seq![s]);
    } else {
        assert(s =~= Seq::<char>::empty());
    }
}

/// A reply is heard exactly where it is an outbound message of the agent in the
/// session, and it is the text of it.
pub proof fn law_a_reply_is_heard_in_its_session(event: JsonModel, agent_id: Seq<char>, session_id: Seq<char>)
    ensures
        reply_in(event, agent_id, session_id) is Some <==> {
            &&& event.at("type"@).as_text() == Some("outbound_message"@)
            &&& event.at("agent_id"@).as_text() == Some(agent_id)
            &&& event.at("text"@) is Text
            &&& event.text_or("channel_id"@, ""@) == session_id || text::ends(
                event.text_or("channel_id"@, ""@),
                session_id,
            )
        },
        reply_in(event, agent_id, session_id) matches Some(reply) ==> event.at("text"@) == JsonModel::Text(reply),
{
}

/// Without an agent the first one is spoken to.
pub proof fn law_the_first_agent_is_spoken_to(response: JsonModel)
    ensures
        first_agent(response) matches Some(id) ==> response.at("agents"@).items().len() > 0 && response.at(
            "agents"@,
        ).items()[0].at("id"@) == JsonModel::Text(id),
        response.at("agents"@).items().len() == 0 ==> first_agent(response) is None,
{
}

} // verus!
