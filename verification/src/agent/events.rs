//! Reduction of the backend's events into the bounded stream that
//! applications see.
use vstd::prelude::*;
use crate::agent::protocol::{AgentEvent, TurnInput};
use crate::agent::protocol::EventView;
use crate::json::{json_array, json_get, parse_json, text_at, text_at_is, true_at};
use crate::json::{json_tree, parsed_json, trees, JsonTree};
use crate::text::{byte_count, text_eq};
use crate::text::byte_len;

verus! {

/// The most bytes of an answer.
pub const MAX_PUBLISHED_OUTPUT: usize = 64 * 1024;

/// What a line of the backend leads to.
#[derive(Clone, Debug, PartialEq, Eq)]
pub enum LineOutcome {
    Continue,
    Complete,
    Rejected(String),
    Fatal(String),
}

/// An outcome over texts.
pub enum OutcomeView {
    Continue,
    Complete,
    Rejected(Seq<char>),
    Fatal(Seq<char>),
}

impl View for LineOutcome {
    type V = OutcomeView;

    open spec fn view(&self) -> OutcomeView {
        match self {
            LineOutcome::Continue => OutcomeView::Continue,
            LineOutcome::Complete => OutcomeView::Complete,
            LineOutcome::Rejected(message) => OutcomeView::Rejected(message@),
            LineOutcome::Fatal(message) => OutcomeView::Fatal(message@),
        }
    }
}

/// A response to the command with this id.
pub open spec fn is_response(tree: JsonTree, id: Seq<char>, command: Seq<char>) -> bool {
    &&& tree.text_at("type"@) == Some("response"@)
    &&& tree.text_at("id"@) == Some(id)
    &&& tree.text_at("command"@) == Some(command)
}

/// Whether a value is the response to the command with this id.
pub fn response_matches(value: &serde_json::Value, id: &str, command: &str) -> (r: bool)
    ensures
        r == is_response(json_tree(*value), id@, command@),
{
    text_at_is(value, "type", "response") && text_at_is(value, "id", id) && text_at_is(
        value,
        "command",
        command,
    )
}

/// What a failed response complains about.
pub open spec fn complaint(tree: JsonTree) -> Seq<char> {
    match tree.text_at("error"@) {
        Some(text) => text,
        None => "Pi rejected the RPC command"@,
    }
}

/// What a failed response complains about.
pub fn rpc_error(value: &serde_json::Value) -> (r: String)
    ensures
        r@ == complaint(json_tree(*value)),
{
    match text_at(value, "error") {
        Some(text) => text.to_owned(),
        None => "Pi rejected the RPC command".to_owned(),
    }
}

/// The visible text of one part of a message.
pub open spec fn part_text(part: JsonTree) -> Seq<char> {
    if part.text_at("type"@) == Some("text"@) {
        match part.text_at("text"@) {
            Some(text) => text,
            None => Seq::empty(),
        }
    } else {
        Seq::empty()
    }
}

/// The visible text of the parts of a message, in order. Reasoning and tools
/// are left out.
pub open spec fn visible_text(parts: Seq<JsonTree>) -> Seq<char>
    decreases parts.len(),
{
    if parts.len() == 0 {
        Seq::empty()
    } else {
        visible_text(parts.drop_last()) + part_text(parts.last())
    }
}

/// The visible text of an assistant message that has some.
pub open spec fn message_text(tree: JsonTree) -> Option<Seq<char>> {
    match tree.get("message"@) {
        Some(message) => if message.text_at("role"@) == Some("assistant"@) {
            match message.get("content"@) {
                Some(JsonTree::Array(parts)) => if visible_text(parts).len() > 0 {
                    Some(visible_text(parts))
                } else {
                    None
                },
                _ => None,
            }
        } else {
            None
        },
        None => None,
    }
}

/// The visible text of an assistant message that has some.
pub fn assistant_text(value: &serde_json::Value) -> (r: Option<String>)
    ensures
        match r {
            Some(text) => message_text(json_tree(*value)) == Some(text@),
            None => message_text(json_tree(*value)) is None,
        },
{
    let message = match json_get(value, "message") {
        Some(message) => message,
        None => return None,
    };
    if !text_at_is(message, "role", "assistant") {
        return None;
    }
    let content = match json_get(message, "content") {
        Some(content) => content,
        None => return None,
    };
    let parts = match json_array(content) {
        Some(parts) => parts,
        None => return None,
    };
    let ghost all = trees(parts@);
    let mut text = String::new();
    let mut i: usize = 0;
    assert(all.take(0) =~= Seq::<JsonTree>::empty());
    while i < parts.len()
        invariant
            i <= parts@.len(),
            all == trees(parts@),
            text@ == visible_text(all.take(i as int)),
        decreases parts@.len() - i,
    {
        assert(all.take(i + 1).drop_last() =~= all.take(i as int));
        assert(all.take(i + 1).last() == json_tree(parts@[i as int]));
        let ghost before = text@;
        if text_at_is(&parts[i], "type", "text") {
            if let Some(part) = text_at(&parts[i], "text") {
                text.append(part);
            }
        }
        assert(text@ =~= before + part_text(json_tree(parts@[i as int])));
        i = i + 1;
    }
    assert(all.take(i as int) =~= all);
    if text.as_str().is_empty() {
        None
    } else {
        Some(text)
    }
}

/// The text that a streaming update adds.
pub open spec fn delta_text(tree: JsonTree) -> Option<Seq<char>> {
    match tree.get("assistantMessageEvent"@) {
        Some(event) => if event.text_at("type"@) == Some("text_delta"@) {
            event.text_at("delta"@)
        } else {
            None
        },
        None => None,
    }
}

/// The text that a streaming update adds.
pub fn streaming_text_delta(value: &serde_json::Value) -> (r: Option<&str>)
    ensures
        match r {
            Some(text) => delta_text(json_tree(*value)) == Some(text@),
            None => delta_text(json_tree(*value)) is None,
        },
{
    match json_get(value, "assistantMessageEvent") {
        Some(event) => if text_at_is(event, "type", "text_delta") {
            text_at(event, "delta")
        } else {
            None
        },
        None => None,
    }
}

/// The answer so far after an update, or nothing where it would be too long. A
/// full message replaces it; a streaming update adds to it.
pub open spec fn updated(tree: JsonTree, candidate: Seq<char>) -> Option<Seq<char>> {
    match message_text(tree) {
        Some(text) => if byte_len(text) > MAX_PUBLISHED_OUTPUT {
            None
        } else {
            Some(text)
        },
        None => match delta_text(tree) {
            Some(delta) => if delta.len() == 0 {
                Some(candidate)
            } else if byte_len(candidate) + byte_len(delta) > MAX_PUBLISHED_OUTPUT {
                None
            } else {
                Some(candidate + delta)
            },
            None => Some(candidate),
        },
    }
}

/// Updates the answer so far.
pub fn update_candidate(value: &serde_json::Value, candidate: &mut String) -> (r: Result<
    (),
    &'static str,
>)
    ensures
        match r {
            Ok(_) => updated(json_tree(*value), old(candidate)@) == Some(final(candidate)@),
            Err(message) => {
                &&& updated(json_tree(*value), old(candidate)@) is None
                &&& final(candidate)@ == old(candidate)@
                &&& message@ == "Pi answer exceeded the 64 KiB output limit"@
            },
        },
{
    if let Some(text) = assistant_text(value) {
        if byte_count(text.as_str()) > MAX_PUBLISHED_OUTPUT {
            return Err("Pi answer exceeded the 64 KiB output limit");
        }
        *candidate = text;
        return Ok(());
    }
    if let Some(delta) = streaming_text_delta(value) {
        if !delta.is_empty() {
            if byte_count(candidate.as_str()).saturating_add(byte_count(delta))
                > MAX_PUBLISHED_OUTPUT {
                return Err("Pi answer exceeded the 64 KiB output limit");
            }
            candidate.append(delta);
        }
    }
    Ok(())
}

/// What a document of the backend does to a turn: the outcome, the answer so
/// far and whether the prompt has been accepted.
pub open spec fn reduced(
    tree: JsonTree,
    turn_id: Seq<char>,
    published: Seq<char>,
    accepted: bool,
) -> (OutcomeView, Seq<char>, bool) {
    let kind = tree.text_at("type"@);
    if is_response(tree, turn_id, "prompt"@) {
        if tree.bool_at("success"@) == Some(true) {
            (OutcomeView::Continue, published, true)
        } else {
            (OutcomeView::Rejected(complaint(tree)), published, false)
        }
    } else if accepted && (kind == Some("message_update"@) || kind == Some("message_end"@)) {
        match updated(tree, published) {
            Some(text) => (OutcomeView::Continue, text, accepted),
            None => (
                OutcomeView::Fatal("Pi answer exceeded the 64 KiB output limit"@),
                published,
                accepted,
            ),
        }
    } else if accepted && kind == Some("tool_execution_start"@) {
        (OutcomeView::Continue, Seq::empty(), accepted)
    } else if accepted && kind == Some("agent_end"@) {
        (OutcomeView::Complete, published, accepted)
    } else {
        (OutcomeView::Continue, published, accepted)
    }
}

/// The events at the end of a turn: the answer, where there is one, and the
/// end itself.
pub open spec fn closing_events(turn: TurnInput, published: Seq<char>) -> Seq<EventView> {
    let end = EventView::Complete(turn.request_id@, turn.app_id@, turn.turn_id@);
    if published.len() > 0 {
        seq![
            EventView::TextDelta(turn.request_id@, turn.app_id@, turn.turn_id@, published),
            end,
        ]
    } else {
        seq![end]
    }
}

/// The views of a list of events.
pub open spec fn event_views(events: Seq<AgentEvent>) -> Seq<EventView> {
    events.map_values(|e: AgentEvent| e@)
}

/// Follows a document of the backend. The events that the application is sent
/// come back with the outcome.
pub fn process_value(
    value: &serde_json::Value,
    turn: &TurnInput,
    published: &mut String,
    accepted: &mut bool,
) -> (r: (LineOutcome, Vec<AgentEvent>))
    ensures
        (r.0@, final(published)@, *final(accepted)) == reduced(
            json_tree(*value),
            turn.turn_id@,
            old(published)@,
            *old(accepted),
        ),
        event_views(r.1@) == (if r.0@ == OutcomeView::Complete {
            closing_events(*turn, old(published)@)
        } else {
            Seq::empty()
        }),
{
    let mut events: Vec<AgentEvent> = Vec::new();
    assert(event_views(events@) =~= Seq::<EventView>::empty());
    if response_matches(value, turn.turn_id.as_str(), "prompt") {
        if true_at(value, "success") {
            *accepted = true;
            return (LineOutcome::Continue, events);
        }
        *accepted = false;
        return (LineOutcome::Rejected(rpc_error(value)), events);
    }
    if !*accepted {
        return (LineOutcome::Continue, events);
    }
    let kind = match text_at(value, "type") {
        Some(kind) => kind,
        None => return (LineOutcome::Continue, events),
    };
    if text_eq(kind, "message_update") || text_eq(kind, "message_end") {
        return match update_candidate(value, published) {
            Ok(_) => (LineOutcome::Continue, events),
            Err(message) => (LineOutcome::Fatal(message.to_owned()), events),
        };
    }
    if text_eq(kind, "tool_execution_start") {
        // Any assistant prose preceding a tool is working narration, not the
        // final paper answer. The post-tool assistant message replaces it.
        *published = String::new();
        return (LineOutcome::Continue, events);
    }
    if text_eq(kind, "agent_end") {
        if !published.as_str().is_empty() {
            events.push(
                AgentEvent::TextDelta {
                    request_id: turn.request_id.clone(),
                    app_id: turn.app_id.clone(),
                    turn_id: turn.turn_id.clone(),
                    text: published.clone(),
                },
            );
        }
        events.push(
            AgentEvent::Complete {
                request_id: turn.request_id.clone(),
                app_id: turn.app_id.clone(),
                turn_id: turn.turn_id.clone(),
            },
        );
        assert(event_views(events@) =~= closing_events(*turn, old(published)@));
        return (LineOutcome::Complete, events);
    }
    (LineOutcome::Continue, events)
}

/// Follows a line of the backend. A line that is no document is passed over.
pub fn process_line(
    line: &str,
    turn: &TurnInput,
    published: &mut String,
    accepted: &mut bool,
) -> (r: (LineOutcome, Vec<AgentEvent>))
    ensures
        match parsed_json(line@) {
            Some(tree) => {
                &&& (r.0@, final(published)@, *final(accepted)) == reduced(
                    tree,
                    turn.turn_id@,
                    old(published)@,
                    *old(accepted),
                )
                &&& event_views(r.1@) == (if r.0@ == OutcomeView::Complete {
                    closing_events(*turn, old(published)@)
                } else {
                    Seq::empty()
                })
            },
            None => {
                &&& r.0@ == OutcomeView::Continue
                &&& r.1@.len() == 0
                &&& final(published)@ == old(published)@
                &&& *final(accepted) == *old(accepted)
            },
        },
{
    match parse_json(line) {
        Some(value) => process_value(&value, turn, published, accepted),
        None => (LineOutcome::Continue, Vec::new()),
    }
}

/// How far the backend has followed an abort.
#[derive(Clone, Copy, Debug, PartialEq, Eq, Structural)]
pub struct AbortProgress {
    pub response_ok: bool,
    pub ended: bool,
}

impl AbortProgress {
    /// The progress after a document of the backend.
    pub open spec fn after(self, tree: JsonTree, abort_id: Seq<char>) -> AbortProgress {
        AbortProgress {
            response_ok: if is_response(tree, abort_id, "abort"@) {
                tree.bool_at("success"@) == Some(true)
            } else {
                self.response_ok
            },
            ended: self.ended || tree.text_at("type"@) == Some("agent_end"@),
        }
    }

    /// No progress yet.
    pub fn new() -> (r: AbortProgress)
        ensures
            !r.response_ok && !r.ended,
    {
        AbortProgress { response_ok: false, ended: false }
    }

    /// Whether the abort is complete: it was confirmed and the turn has ended.
    pub fn is_complete(&self) -> (r: bool)
        ensures
            r == (self.response_ok && self.ended),
    {
        self.response_ok && self.ended
    }

    /// Follows a document of the backend.
    pub fn follow_value(&mut self, value: &serde_json::Value, abort_id: &str)
        ensures
            *final(self) == old(self).after(json_tree(*value), abort_id@),
    {
        if response_matches(value, abort_id, "abort") {
            self.response_ok = true_at(value, "success");
        }
        if text_at_is(value, "type", "agent_end") {
            self.ended = true;
        }
    }

    /// Follows a line of the backend.
    pub fn follow(&mut self, line: &str, abort_id: &str)
        ensures
            *final(self) == (match parsed_json(line@) {
                Some(tree) => old(self).after(tree, abort_id@),
                None => *old(self),
            }),
    {
        if let Some(value) = parse_json(line) {
            self.follow_value(&value, abort_id);
        }
    }
}

/// What a document says of a command: nothing, success, or a complaint.
pub open spec fn verdict(tree: JsonTree, id: Seq<char>, command: Seq<char>) -> Option<
    Result<(), Seq<char>>,
> {
    if !is_response(tree, id, command) {
        None
    } else if tree.bool_at("success"@) == Some(true) {
        Some(Ok(()))
    } else {
        Some(Err(complaint(tree)))
    }
}

/// What a document says of a command.
pub fn value_verdict(value: &serde_json::Value, id: &str, command: &str) -> (r: Option<
    Result<(), String>,
>)
    ensures
        match r {
            None => verdict(json_tree(*value), id@, command@) is None,
            Some(Ok(_)) => verdict(json_tree(*value), id@, command@) == Some(
                Ok::<(), Seq<char>>(()),
            ),
            Some(Err(message)) => verdict(json_tree(*value), id@, command@) == Some(
                Err::<(), Seq<char>>(message@),
            ),
        },
{
    if !response_matches(value, id, command) {
        None
    } else if true_at(value, "success") {
        Some(Ok(()))
    } else {
        Some(Err(rpc_error(value)))
    }
}

/// What a line of the backend says of a command.
pub fn line_verdict(line: &str, id: &str, command: &str) -> (r: Option<Result<(), String>>)
    ensures
        match parsed_json(line@) {
            None => r is None,
            Some(tree) => match r {
                None => verdict(tree, id@, command@) is None,
                Some(Ok(_)) => verdict(tree, id@, command@) == Some(Ok::<(), Seq<char>>(())),
                Some(Err(message)) => verdict(tree, id@, command@) == Some(
                    Err::<(), Seq<char>>(message@),
                ),
            },
        },
{
    match parse_json(line) {
        Some(value) => value_verdict(&value, id, command),
        None => None,
    }
}

/// The bytes of two texts joined are those of both.
proof fn lemma_encoding_joins(a: Seq<char>, b: Seq<char>)
    ensures
        byte_len(a + b) == byte_len(a) + byte_len(b),
    decreases a.len(),
{
    if a.len() == 0 {
        assert(a + b =~= b);
    } else {
        assert((a + b).drop_first() =~= a.drop_first() + b);
        lemma_encoding_joins(a.drop_first(), b);
    }
}

/// The answer of a turn never grows beyond its limit, whatever the backend
/// sends.
pub proof fn answers_stay_bounded(
    tree: JsonTree,
    turn_id: Seq<char>,
    published: Seq<char>,
    accepted: bool,
)
    requires
        byte_len(published) <= MAX_PUBLISHED_OUTPUT,
    ensures
        byte_len(reduced(tree, turn_id, published, accepted).1) <= MAX_PUBLISHED_OUTPUT,
{
    if let Some(delta) = delta_text(tree) {
        lemma_encoding_joins(published, delta);
    }
    assert(byte_len(Seq::<char>::empty()) == 0);
}

/// A turn completes only after its prompt was accepted.
pub proof fn turns_complete_only_when_accepted(
    tree: JsonTree,
    turn_id: Seq<char>,
    published: Seq<char>,
    accepted: bool,
)
    requires
        reduced(tree, turn_id, published, accepted).0 == OutcomeView::Complete,
    ensures
        accepted,
{
}

/// Whatever was written before a tool ran is not part of the answer.
pub proof fn narration_before_tools_is_dropped(
    tree: JsonTree,
    turn_id: Seq<char>,
    published: Seq<char>,
)
    requires
        tree.text_at("type"@) == Some("tool_execution_start"@),
    ensures
        reduced(tree, turn_id, published, true) == (
            OutcomeView::Continue,
            Seq::<char>::empty(),
            true,
        ),
{
    reveal_strlit("response");
    reveal_strlit("tool_execution_start");
    reveal_strlit("message_update");
    reveal_strlit("message_end");
    assert("response"@.len() != "tool_execution_start"@.len());
    assert("message_update"@.len() != "tool_execution_start"@.len());
    assert("message_end"@.len() != "tool_execution_start"@.len());
}

/// The visible text of an answer is the text of its parts, one after the other. Parts of another
/// type, and text parts without a text, show nothing.
pub proof fn answers_show_their_text_parts(a: Seq<JsonTree>, b: Seq<JsonTree>, part: JsonTree)
    ensures
        visible_text(a + b) == visible_text(a) + visible_text(b),
        visible_text(Seq::empty()) == Seq::<char>::empty(),
        part.text_at("type"@) == Some("text"@) && part.text_at("text"@) is Some ==> visible_text(
            seq![part],
        ) == part.text_at("text"@)->0,
        part.text_at("type"@) != Some("text"@) || part.text_at("text"@) is None ==> visible_text(
            seq![part],
        ) == Seq::<char>::empty(),
    decreases b.len(),
{
    if b.len() == 0 {
        assert(a + b =~= a);
        assert(visible_text(a) + visible_text(b) =~= visible_text(a));
    } else {
        assert((a + b).drop_last() =~= a + b.drop_last());
        answers_show_their_text_parts(a, b.drop_last(), part);
        assert(visible_text(a + b) =~= visible_text(a) + visible_text(b));
    }
    assert(seq![part].drop_last() =~= Seq::<JsonTree>::empty());
    assert(seq![part].last() == part);
    assert(visible_text(Seq::<JsonTree>::empty()) =~= Seq::<char>::empty());
    assert(visible_text(seq![part]) =~= part_text(part));
}

/// Only what the assistant says is an answer, and only where there is something to see.
pub proof fn only_the_assistant_answers(tree: JsonTree, parts: Seq<JsonTree>)
    ensures
        message_text(tree) is Some ==> tree.get("message"@) is Some && tree.get(
            "message"@,
        )->0.text_at("role"@) == Some("assistant"@) && message_text(tree)->0.len() > 0,
        tree.get("message"@) is Some && tree.get("message"@)->0.text_at("role"@) == Some(
            "assistant"@,
        ) && tree.get("message"@)->0.get("content"@) == Some(JsonTree::Array(parts))
            && visible_text(parts).len() > 0 ==> message_text(tree) == Some(visible_text(parts)),
{
}

/// A whole answer takes the place of what was published before, and a piece of an answer is
/// appended to it, as long as the limit of 64 KiB is kept; beyond the limit the turn fails and
/// what was published stays.
pub proof fn accepted_answers_are_published(
    tree: JsonTree,
    turn_id: Seq<char>,
    published: Seq<char>,
    text: Seq<char>,
)
    requires
        tree.text_at("type"@) == Some("message_update"@) || tree.text_at("type"@) == Some(
            "message_end"@,
        ),
    ensures
        ({
            let (outcome, now, accepted) = reduced(tree, turn_id, published, true);
            &&& accepted
            &&& message_text(tree) == Some(text) && byte_len(text) <= 64 * 1024 ==> outcome
                == OutcomeView::Continue && now == text
            &&& message_text(tree) == Some(text) && byte_len(text) > 64 * 1024
                ==> outcome is Fatal && now == published
            &&& message_text(tree) is None && tree.get("assistantMessageEvent"@) is Some
                && tree.get("assistantMessageEvent"@)->0.text_at("type"@) == Some("text_delta"@)
                && tree.get("assistantMessageEvent"@)->0.text_at("delta"@) == Some(text)
                && byte_len(published) + byte_len(text) <= 64 * 1024 ==> outcome
                == OutcomeView::Continue && now == published + text
            &&& message_text(tree) is None && tree.get("assistantMessageEvent"@) is Some
                && tree.get("assistantMessageEvent"@)->0.text_at("type"@) == Some("text_delta"@)
                && tree.get("assistantMessageEvent"@)->0.text_at("delta"@) == Some(text)
                && text.len() > 0 && byte_len(published) + byte_len(text) > 64 * 1024
                ==> outcome is Fatal && now == published
            &&& message_text(tree) is None && tree.get("assistantMessageEvent"@) is None ==> outcome
                == OutcomeView::Continue && now == published
        }),
{
    reveal_strlit("message_update");
    reveal_strlit("message_end");
    reveal_strlit("response");
    assert("message_update"@[0] != "response"@[0]);
    assert("message_end"@[0] != "response"@[0]);
    assert(published + Seq::<char>::empty() =~= published);
    assert(text.len() == 0 ==> text =~= Seq::<char>::empty());
}

/// Before the backend has accepted the prompt nothing is published and nothing completes.
pub proof fn nothing_is_published_before_acceptance(
    tree: JsonTree,
    turn_id: Seq<char>,
    published: Seq<char>,
)
    ensures
        reduced(tree, turn_id, published, false).1 == published,
        reduced(tree, turn_id, published, false).0 != OutcomeView::Complete,
        !(reduced(tree, turn_id, published, false).0 is Fatal),
{
}

/// A turn is accepted by a response to its own prompt that reports success, and by nothing else;
/// a response that does not report success rejects it, with the backend's own words where it has
/// some.
pub proof fn prompts_are_accepted_by_their_own_response(
    tree: JsonTree,
    turn_id: Seq<char>,
    published: Seq<char>,
    accepted: bool,
)
    ensures
        ({
            let own = tree.text_at("type"@) == Some("response"@) && tree.text_at("id"@) == Some(
                turn_id,
            ) && tree.text_at("command"@) == Some("prompt"@);
            let (outcome, now, after) = reduced(tree, turn_id, published, accepted);
            &&& own && tree.bool_at("success"@) == Some(true) ==> outcome == OutcomeView::Continue
                && after && now == published
            &&& own && tree.bool_at("success"@) != Some(true) ==> outcome is Rejected && !after
                && now == published
            &&& own && tree.bool_at("success"@) != Some(true) && tree.text_at("error"@) is Some
                ==> outcome == OutcomeView::Rejected(tree.text_at("error"@)->0)
            &&& own && tree.bool_at("success"@) != Some(true) && tree.text_at("error"@) is None
                ==> outcome == OutcomeView::Rejected("Pi rejected the RPC command"@)
            &&& !own ==> after == accepted && !(outcome is Rejected)
        }),
{
}

/// The end of the agent's work completes an accepted turn with what was published; it is the only
/// thing that does.
pub proof fn the_agents_end_completes_the_turn(
    tree: JsonTree,
    turn_id: Seq<char>,
    published: Seq<char>,
)
    ensures
        tree.text_at("type"@) == Some("agent_end"@) ==> reduced(tree, turn_id, published, true) == (
            OutcomeView::Complete,
            published,
            true,
        ),
        reduced(tree, turn_id, published, true).0 == OutcomeView::Complete ==> tree.text_at(
            "type"@,
        ) == Some("agent_end"@),
{
    reveal_strlit("agent_end");
    reveal_strlit("response");
    reveal_strlit("message_update");
    reveal_strlit("message_end");
    reveal_strlit("tool_execution_start");
    assert("agent_end"@[0] == 'a' && "response"@[0] == 'r' && "message_update"@[0] == 'm'
        && "message_end"@[0] == 'm' && "tool_execution_start"@[0] == 't');
}

/// Documents of any other type change nothing.
pub proof fn other_documents_change_nothing(
    tree: JsonTree,
    turn_id: Seq<char>,
    published: Seq<char>,
    accepted: bool,
)
    requires
        tree.text_at("type"@) != Some("response"@),
        tree.text_at("type"@) != Some("message_update"@),
        tree.text_at("type"@) != Some("message_end"@),
        tree.text_at("type"@) != Some("tool_execution_start"@),
        tree.text_at("type"@) != Some("agent_end"@),
    ensures
        reduced(tree, turn_id, published, accepted) == (
            OutcomeView::Continue,
            published,
            accepted,
        ),
{
}

/// A completed turn tells the application its text, where there is some, and then once that it is
/// complete; both name the request, the application and the turn.
pub proof fn completed_turns_tell_their_text_once(turn: TurnInput, published: Seq<char>)
    ensures
        ({
            let events = closing_events(turn, published);
            &&& events.last() == EventView::Complete(turn.request_id@, turn.app_id@, turn.turn_id@)
            &&& published.len() == 0 ==> events.len() == 1
            &&& published.len() > 0 ==> events.len() == 2 && events[0] == EventView::TextDelta(
                turn.request_id@,
                turn.app_id@,
                turn.turn_id@,
                published,
            )
        }),
{
}

/// An abort is over only when the backend has answered it with success and the agent has ended,
/// in either order; a document about something else changes nothing.
pub proof fn aborts_need_an_answer_and_an_end(
    progress: AbortProgress,
    tree: JsonTree,
    abort_id: Seq<char>,
)
    ensures
        ({
            let own = tree.text_at("type"@) == Some("response"@) && tree.text_at("id"@) == Some(
                abort_id,
            ) && tree.text_at("command"@) == Some("abort"@);
            let end = tree.text_at("type"@) == Some("agent_end"@);
            let next = progress.after(tree, abort_id);
            &&& progress.ended ==> next.ended
            &&& end ==> next.ended && next.response_ok == progress.response_ok
            &&& own && tree.bool_at("success"@) == Some(true) ==> next.response_ok && next.ended
                == progress.ended
            &&& own && tree.bool_at("success"@) != Some(true) ==> !next.response_ok
            &&& !own && !end ==> next == progress
        }),
{
    reveal_strlit("agent_end");
    reveal_strlit("response");
    assert("agent_end"@[0] != "response"@[0]);
}

/// A command is answered by a response that names it and its number, and by nothing else; it has
/// succeeded only where the response says so.
pub proof fn commands_are_answered_by_their_own_response(
    tree: JsonTree,
    id: Seq<char>,
    command: Seq<char>,
)
    ensures
        ({
            let own = tree.text_at("type"@) == Some("response"@) && tree.text_at("id"@) == Some(id)
                && tree.text_at("command"@) == Some(command);
            &&& verdict(tree, id, command) is Some <==> own
            &&& verdict(tree, id, command) == Some(Ok::<(), Seq<char>>(())) <==> own
                && tree.bool_at("success"@) == Some(true)
            &&& own && tree.bool_at("success"@) != Some(true) && tree.text_at("error"@) is Some
                ==> verdict(tree, id, command) == Some(
                Err::<(), Seq<char>>(tree.text_at("error"@)->0),
            )
        }),
{
}

} // verus!
