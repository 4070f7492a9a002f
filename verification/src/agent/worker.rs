//! One resident backend process: its commands and how a turn runs on it.
use vstd::prelude::*;
use vstd::utf8::{decode_utf8, valid_utf8};
use crate::agent::events::{line_verdict, process_line, AbortProgress, LineOutcome};
use crate::agent::events::{
    closing_events, event_views, reduced, the_agents_end_completes_the_turn, verdict, OutcomeView,
};
use crate::agent::protocol::{AgentEvent, AgentErrorCode, AgentHistoryTurn, TurnInput};
use crate::agent::protocol::EventView;
use crate::agent::wire::{line_length, without_return};
use crate::json::{json_bytes, json_empty_object, json_put, json_text_value};
use crate::json::{json_encoding, json_tree, parsed_json, JsonTree};
use crate::text::decimal_text;
use crate::text::decimal;

verus! {

/// How long the answer to a command may take, in seconds.
pub const RPC_TIMEOUT_SECS: u64 = 10;

/// How long an abort may take, in seconds.
pub const ABORT_TIMEOUT_SECS: u64 = 2;

/// How often the start of a busy executable is tried again.
pub const SPAWN_BUSY_RETRIES: usize = 3;

/// Whether the start of the backend is tried again after this attempt failed.
/// An atomic runtime update or a delayed close can briefly leave the
/// executable busy; every other failure is final.
pub fn retries_spawn(attempt: usize, busy: bool) -> (r: bool)
    ensures
        r == (busy && attempt < SPAWN_BUSY_RETRIES),
{
    busy && attempt < SPAWN_BUSY_RETRIES
}

/// Earlier exchanges as they are put before a prompt.
pub open spec fn history_text(history: Seq<AgentHistoryTurn>) -> Seq<char>
    decreases history.len(),
{
    if history.len() == 0 {
        Seq::empty()
    } else {
        history_text(history.drop_last()) + "User: "@ + history.last().user@ + "\nAssistant: "@
            + history.last().assistant@ + "\n\n"@
    }
}

/// The prompt of a turn.
pub open spec fn prompt_text(turn: TurnInput, include_history: bool) -> Seq<char> {
    let before = if include_history {
        history_text(turn.history@)
    } else {
        Seq::empty()
    };
    before + "User: "@ + turn.input@
}

/// Composes the prompt of a turn, after earlier exchanges where they are
/// wanted.
pub fn compose_prompt(turn: &TurnInput, include_history: bool) -> (r: String)
    ensures
        r@ == prompt_text(*turn, include_history),
{
    let mut result = String::new();
    if include_history {
        let ghost all = turn.history@;
        assert(all.take(0) =~= Seq::<AgentHistoryTurn>::empty());
        let mut i: usize = 0;
        while i < turn.history.len()
            invariant
                i <= turn.history@.len(),
                all == turn.history@,
                result@ == history_text(all.take(i as int)),
            decreases turn.history@.len() - i,
        {
            assert(all.take(i + 1).drop_last() =~= all.take(i as int));
            result.append("User: ");
            result.append(turn.history[i].user.as_str());
            result.append("\nAssistant: ");
            result.append(turn.history[i].assistant.as_str());
            result.append("\n\n");
            i = i + 1;
        }
        assert(all.take(i as int) =~= all);
    }
    result.append("User: ");
    result.append(turn.input.as_str());
    result
}

/// The command that asks for a turn.
pub open spec fn prompt_tree(turn_id: Seq<char>, prompt: Seq<char>) -> JsonTree {
    JsonTree::Object(
        Map::<Seq<char>, JsonTree>::empty().insert("id"@, JsonTree::Text(turn_id)).insert(
            "type"@,
            JsonTree::Text("prompt"@),
        ).insert("message"@, JsonTree::Text(prompt)),
    )
}

/// A command with an id and nothing else.
pub open spec fn command_tree(id: Seq<char>, kind: Seq<char>) -> JsonTree {
    JsonTree::Object(
        Map::<Seq<char>, JsonTree>::empty().insert("id"@, JsonTree::Text(id)).insert(
            "type"@,
            JsonTree::Text(kind),
        ),
    )
}

/// These bytes are one line that stands for this document: its encoding and a
/// line feed. Who reads the line gets the document back.
pub open spec fn carries(line: Seq<u8>, tree: JsonTree) -> bool {
    let bytes = line.drop_last();
    &&& line.len() > 0 && line.last() == 10
    &&& json_encoding(tree) == Some(bytes)
    &&& line_length(line) == bytes.len()
    &&& without_return(bytes) == bytes
    &&& valid_utf8(bytes)
    &&& parsed_json(decode_utf8(bytes)) == Some(tree)
}

/// A line of bytes ends at its only line feed.
proof fn lemma_one_line(bytes: Seq<u8>)
    requires
        !bytes.contains(10),
    ensures
        line_length(bytes.push(10)) == bytes.len(),
    decreases bytes.len(),
{
    if bytes.len() > 0 {
        assert(bytes.contains(bytes[0]));
        assert(bytes.push(10).drop_first() =~= bytes.drop_first().push(10));
        assert forall|i: int| 0 <= i < bytes.drop_first().len() implies bytes.drop_first()[i]
            != 10 by {
            assert(bytes.contains(bytes[i + 1]));
        }
        lemma_one_line(bytes.drop_first());
    }
}

/// The line of a document.
fn document_line(value: &serde_json::Value) -> (r: Option<Vec<u8>>)
    requires
        json_tree(*value).textual(4),
    ensures
        match r {
            Some(line) => carries(line@, json_tree(*value)),
            None => json_encoding(json_tree(*value)) is None,
        },
{
    match json_bytes(value) {
        Some(bytes) => {
            let mut line = bytes;
            proof {
                lemma_one_line(bytes@);
                if bytes@.len() > 0 {
                    assert(bytes@.contains(bytes@.last()));
                }
            }
            line.push(10);
            assert(line@.drop_last() =~= bytes@);
            Some(line)
        },
        None => None,
    }
}

/// The line of a command with an id and nothing else.
pub fn command_line(id: &str, kind: &str) -> (r: Option<Vec<u8>>)
    ensures
        match r {
            Some(line) => carries(line@, command_tree(id@, kind@)),
            None => json_encoding(command_tree(id@, kind@)) is None,
        },
{
    let mut value = json_empty_object();
    json_put(&mut value, "id", json_text_value(id.to_owned()));
    json_put(&mut value, "type", json_text_value(kind.to_owned()));
    proof {
        reveal_with_fuel(JsonTree::textual, 2);
    }
    document_line(&value)
}

/// The line of the command that asks for a turn.
pub fn prompt_line(turn_id: &str, prompt: String) -> (r: Option<Vec<u8>>)
    ensures
        match r {
            Some(line) => carries(line@, prompt_tree(turn_id@, prompt@)),
            None => json_encoding(prompt_tree(turn_id@, prompt@)) is None,
        },
{
    let mut value = json_empty_object();
    json_put(&mut value, "id", json_text_value(turn_id.to_owned()));
    json_put(&mut value, "type", json_text_value("prompt".to_owned()));
    json_put(&mut value, "message", json_text_value(prompt));
    proof {
        reveal_with_fuel(JsonTree::textual, 2);
    }
    document_line(&value)
}

/// The id of the abort of a turn.
pub fn abort_id(turn_id: &str) -> (r: String)
    ensures
        r@ == "abort:"@ + turn_id@,
{
    let mut id = "abort:".to_owned();
    id.append(turn_id);
    id
}

/// What the service remembers of a backend process.
#[derive(Clone, Copy, Debug, PartialEq, Eq, Structural)]
pub struct WorkerSession {
    pub command_sequence: u64,
    pub hydrate_history_on_next: bool,
}

/// A turn that runs.
#[derive(Debug)]
pub struct TurnRun {
    pub turn: TurnInput,
    /// The answer so far.
    pub published: String,
    /// Whether the backend has accepted the prompt.
    pub accepted: bool,
}

/// What happened in a turn.
#[derive(Clone, Debug, PartialEq, Eq)]
pub enum TurnProgress {
    /// The prompt could not be written.
    WriteFailed(String),
    /// The cancellation changed; whether it now asks for one.
    CancelChanged(bool),
    /// The backend wrote a line.
    Line(String),
    /// The backend has exited.
    Exited,
    /// The backend could not be read.
    ReadFailed(String),
}

/// What is done next in a turn.
#[derive(Clone, Copy, Debug, PartialEq, Eq, Structural)]
pub enum TurnStep {
    /// Wait for more.
    Continue,
    /// Abort the turn.
    Abort,
    /// The turn is over; whether the process is kept.
    Finish { keep_running: bool },
}

/// A turn and its session over texts.
pub struct RunView {
    pub published: Seq<char>,
    pub accepted: bool,
    pub session: WorkerSession,
}

/// A session after a completed command.
pub open spec fn advanced(session: WorkerSession) -> WorkerSession {
    WorkerSession {
        command_sequence: (session.command_sequence + 1) as u64,
        hydrate_history_on_next: false,
    }
}

/// What a document of the backend does to a turn: the turn after it, the
/// events that the application is sent and what is done next.
pub open spec fn after_document(turn: TurnInput, run: RunView, tree: JsonTree) -> (
    RunView,
    Seq<EventView>,
    TurnStep,
) {
    let (outcome, published, accepted) = reduced(tree, turn.turn_id@, run.published, run.accepted);
    let next = RunView { published, accepted, ..run };
    match outcome {
        OutcomeView::Continue => (next, Seq::empty(), TurnStep::Continue),
        OutcomeView::Complete => (
            RunView { session: advanced(run.session), ..next },
            closing_events(turn, run.published),
            TurnStep::Finish { keep_running: true },
        ),
        OutcomeView::Rejected(message) => (
            next,
            seq![turn.error_view(AgentErrorCode::BackendFailed, message, false)],
            TurnStep::Finish { keep_running: true },
        ),
        OutcomeView::Fatal(message) => (
            next,
            seq![turn.error_view(AgentErrorCode::BackendFailed, message, false)],
            TurnStep::Finish { keep_running: false },
        ),
    }
}

/// What happens in a turn after this: the turn, the events that the
/// application is sent and what is done next.
pub open spec fn after_progress(turn: TurnInput, run: RunView, progress: TurnProgress) -> (
    RunView,
    Seq<EventView>,
    TurnStep,
) {
    let lost = TurnStep::Finish { keep_running: false };
    match progress {
        TurnProgress::WriteFailed(message) => (
            run,
            seq![turn.error_view(AgentErrorCode::BackendFailed, message@, true)],
            lost,
        ),
        TurnProgress::CancelChanged(requested) => (
            run,
            Seq::empty(),
            if requested {
                TurnStep::Abort
            } else {
                TurnStep::Continue
            },
        ),
        TurnProgress::Line(line) => match parsed_json(line@) {
            Some(tree) => after_document(turn, run, tree),
            None => (run, Seq::empty(), TurnStep::Continue),
        },
        TurnProgress::Exited => (
            run,
            seq![
                turn.error_view(
                    AgentErrorCode::BackendFailed,
                    "Pi exited before agent_end"@,
                    true,
                ),
            ],
            lost,
        ),
        TurnProgress::ReadFailed(message) => (
            run,
            seq![turn.error_view(AgentErrorCode::BackendFailed, message@, true)],
            lost,
        ),
    }
}

/// One event in a list.
fn single_event(event: AgentEvent) -> (r: Vec<AgentEvent>)
    ensures
        event_views(r@) == seq![event@],
{
    let mut events: Vec<AgentEvent> = Vec::new();
    events.push(event);
    assert(event_views(events@) =~= seq![event@]);
    events
}

impl TurnRun {
    /// A turn that starts.
    pub fn new(turn: TurnInput) -> (r: TurnRun)
        ensures
            r.turn == turn,
            r.published@ == Seq::<char>::empty(),
            !r.accepted,
    {
        TurnRun { turn, published: String::new(), accepted: false }
    }

    /// The turn on a session.
    pub open spec fn on(&self, session: WorkerSession) -> RunView {
        RunView { published: self.published@, accepted: self.accepted, session }
    }
}

impl WorkerSession {
    /// The session of a new process: it knows nothing of the conversation.
    pub fn new() -> (r: WorkerSession)
        ensures
            r.command_sequence == 0,
            r.hydrate_history_on_next,
    {
        WorkerSession { command_sequence: 0, hydrate_history_on_next: true }
    }

    /// The line that asks for a turn. Earlier exchanges go with the first one.
    pub fn turn_line(&self, turn: &TurnInput) -> (r: Option<Vec<u8>>)
        ensures
            ({
                let tree = prompt_tree(
                    turn.turn_id@,
                    prompt_text(*turn, self.hydrate_history_on_next),
                );
                match r {
                    Some(line) => carries(line@, tree),
                    None => json_encoding(tree) is None,
                }
            }),
    {
        prompt_line(turn.turn_id.as_str(), compose_prompt(turn, self.hydrate_history_on_next))
    }

    /// The id of the command that resets the session.
    pub fn new_session_id(&self) -> (r: String)
        ensures
            r@ == "new-session:"@ + decimal(self.command_sequence as nat),
    {
        let mut id = "new-session:".to_owned();
        let number = decimal_text(self.command_sequence);
        id.append(number.as_str());
        id
    }

    /// Notes that a command was completed. The process now knows the
    /// conversation.
    pub fn advance(&mut self)
        requires
            old(self).command_sequence < u64::MAX,
        ensures
            *final(self) == advanced(*old(self)),
            final(self).command_sequence == old(self).command_sequence + 1,
            !final(self).hydrate_history_on_next,
    {
        self.command_sequence = self.command_sequence + 1;
        self.hydrate_history_on_next = false;
    }

    /// Follows what happened in a turn.
    pub fn run_turn(&mut self, run: &mut TurnRun, progress: TurnProgress) -> (r: (
        Vec<AgentEvent>,
        TurnStep,
    ))
        requires
            old(self).command_sequence < u64::MAX,
        ensures
            (final(run).on(*final(self)), event_views(r.0@), r.1) == after_progress(
                old(run).turn,
                old(run).on(*old(self)),
                progress,
            ),
            final(run).turn == old(run).turn,
    {
        let mut nothing: Vec<AgentEvent> = Vec::new();
        assert(event_views(nothing@) =~= Seq::<EventView>::empty());
        match progress {
            TurnProgress::WriteFailed(message) => (
                single_event(run.turn.error(message, true)),
                TurnStep::Finish { keep_running: false },
            ),
            TurnProgress::CancelChanged(requested) => (
                nothing,
                if requested {
                    TurnStep::Abort
                } else {
                    TurnStep::Continue
                },
            ),
            TurnProgress::Line(line) => {
                let mut published = run.published.clone();
                let mut accepted = run.accepted;
                let (outcome, events) = process_line(
                    line.as_str(),
                    &run.turn,
                    &mut published,
                    &mut accepted,
                );
                run.published = published;
                run.accepted = accepted;
                assert(events@.len() == 0 ==> event_views(events@) =~= Seq::<EventView>::empty());
                match outcome {
                    LineOutcome::Continue => (events, TurnStep::Continue),
                    LineOutcome::Complete => {
                        self.advance();
                        (events, TurnStep::Finish { keep_running: true })
                    },
                    LineOutcome::Rejected(message) => (
                        single_event(run.turn.error(message, false)),
                        TurnStep::Finish { keep_running: true },
                    ),
                    LineOutcome::Fatal(message) => (
                        single_event(run.turn.error(message, false)),
                        TurnStep::Finish { keep_running: false },
                    ),
                }
            },
            TurnProgress::Exited => (
                single_event(run.turn.error("Pi exited before agent_end".to_owned(), true)),
                TurnStep::Finish { keep_running: false },
            ),
            TurnProgress::ReadFailed(message) => (
                single_event(run.turn.error(message, true)),
                TurnStep::Finish { keep_running: false },
            ),
        }
    }
}

/// What happened in an abort.
#[derive(Clone, Debug, PartialEq, Eq)]
pub enum AbortEvent {
    WriteFailed,
    Line(String),
    Exited,
    ReadFailed,
    TimedOut,
}

/// Follows an abort. `None` means that more is awaited; otherwise the abort
/// is over, the application is sent the cancellation, and the process is kept
/// or not.
pub fn abort_turn(turn: &TurnInput, progress: &mut AbortProgress, event: AbortEvent) -> (r: Option<
    (AgentEvent, bool),
>)
    requires
        !(old(progress).response_ok && old(progress).ended),
    ensures
        ({
            let id = "abort:"@ + turn.turn_id@;
            let next = match event {
                AbortEvent::Line(line) => match parsed_json(line@) {
                    Some(tree) => old(progress).after(tree, id),
                    None => *old(progress),
                },
                _ => *old(progress),
            };
            let complete = next.response_ok && next.ended;
            &&& *final(progress) == next
            &&& match r {
                None => event is Line && !complete,
                Some((told, keep_running)) => {
                    &&& !(event is Line) || complete
                    &&& keep_running == (event is Line)
                    &&& told@ == turn.error_view(
                        AgentErrorCode::Cancelled,
                        "turn cancelled"@,
                        false,
                    )
                },
            }
        }),
{
    match event {
        AbortEvent::Line(line) => {
            let id = abort_id(turn.turn_id.as_str());
            progress.follow(line.as_str(), id.as_str());
            if progress.is_complete() {
                Some((turn.cancelled(), true))
            } else {
                None
            }
        },
        _ => Some((turn.cancelled(), false)),
    }
}

/// What happened while the answer to a command was awaited.
#[derive(Clone, Debug, PartialEq, Eq)]
pub enum ResponseEvent {
    Line(String),
    Exited,
    ReadFailed(String),
    TimedOut,
}

/// What an awaited answer comes to; nothing means that more is awaited.
pub open spec fn response_result(event: ResponseEvent, id: Seq<char>, command: Seq<char>) -> Option<
    Result<(), Seq<char>>,
> {
    match event {
        ResponseEvent::Line(line) => match parsed_json(line@) {
            Some(tree) => verdict(tree, id, command),
            None => None,
        },
        ResponseEvent::Exited => Some(Err("Pi exited while awaiting RPC response"@)),
        ResponseEvent::ReadFailed(message) => Some(Err(message@)),
        ResponseEvent::TimedOut => Some(Err("Pi "@ + command + " response timed out"@)),
    }
}

/// Follows what happened while the answer to a command was awaited.
pub fn wait_response(event: ResponseEvent, id: &str, command: &str) -> (r: Option<
    Result<(), String>,
>)
    ensures
        match r {
            None => response_result(event, id@, command@) is None,
            Some(Ok(_)) => response_result(event, id@, command@) == Some(Ok::<(), Seq<char>>(())),
            Some(Err(message)) => response_result(event, id@, command@) == Some(
                Err::<(), Seq<char>>(message@),
            ),
        },
{
    match event {
        ResponseEvent::Line(line) => line_verdict(line.as_str(), id, command),
        ResponseEvent::Exited => Some(Err("Pi exited while awaiting RPC response".to_owned())),
        ResponseEvent::ReadFailed(message) => Some(Err(message)),
        ResponseEvent::TimedOut => {
            let mut message = "Pi ".to_owned();
            message.append(command);
            message.append(" response timed out");
            Some(Err(message))
        },
    }
}

/// A process is kept after a turn only where its stream is in step: the turn
/// completed or the backend refused it.
pub proof fn lost_processes_are_not_kept(turn: TurnInput, run: RunView, progress: TurnProgress)
    requires
        after_progress(turn, run, progress).2 == (TurnStep::Finish { keep_running: true }),
    ensures
        progress is Line,
        parsed_json(progress->Line_0@) is Some,
        ({
            let outcome = reduced(
                parsed_json(progress->Line_0@)->0,
                turn.turn_id@,
                run.published,
                run.accepted,
            ).0;
            outcome == OutcomeView::Complete || outcome is Rejected
        }),
{
}

/// After a completed turn the earlier exchanges are not repeated to the same
/// process.
pub proof fn completed_turns_end_hydration(turn: TurnInput, run: RunView, tree: JsonTree)
    requires
        reduced(tree, turn.turn_id@, run.published, run.accepted).0 == OutcomeView::Complete,
    ensures
        !after_document(turn, run, tree).0.session.hydrate_history_on_next,
        forall|next: TurnInput|
            #![trigger prompt_text(next, after_document(turn, run, tree).0.session.hydrate_history_on_next)]
            prompt_text(
                next,
                after_document(turn, run, tree).0.session.hydrate_history_on_next,
            ) == "User: "@ + next.input@,
{
    assert forall|next: TurnInput|
        #![trigger prompt_text(next, after_document(turn, run, tree).0.session.hydrate_history_on_next)]
        prompt_text(
            next,
            after_document(turn, run, tree).0.session.hydrate_history_on_next,
        ) == "User: "@ + next.input@ by {
        assert(Seq::<char>::empty() + "User: "@ =~= "User: "@);
    }
}

/// A conversation is told turn by turn: what the user said and then what the assistant said.
pub proof fn history_is_told_turn_by_turn(
    a: Seq<AgentHistoryTurn>,
    b: Seq<AgentHistoryTurn>,
    turn: AgentHistoryTurn,
)
    ensures
        history_text(Seq::empty()) == Seq::<char>::empty(),
        history_text(a + b) == history_text(a) + history_text(b),
        history_text(seq![turn]) == "User: "@ + turn.user@ + "\nAssistant: "@ + turn.assistant@
            + "\n\n"@,
    decreases b.len(),
{
    if b.len() == 0 {
        assert(a + b =~= a);
        assert(history_text(a) + history_text(b) =~= history_text(a));
    } else {
        assert((a + b).drop_last() =~= a + b.drop_last());
        history_is_told_turn_by_turn(a, b.drop_last(), turn);
        assert(history_text(a + b) =~= history_text(a) + history_text(b));
    }
    assert(seq![turn].drop_last() =~= Seq::<AgentHistoryTurn>::empty());
    assert(seq![turn].last() == turn);
    assert(history_text(Seq::<AgentHistoryTurn>::empty()) =~= Seq::<char>::empty());
    assert(history_text(seq![turn]) =~= "User: "@ + turn.user@ + "\nAssistant: "@ + turn.assistant@
        + "\n\n"@);
}

/// A prompt ends with what the user says now, and begins with the conversation so far exactly
/// where it is asked for.
pub proof fn prompts_end_with_the_question(turn: TurnInput)
    ensures
        prompt_text(turn, false) == "User: "@ + turn.input@,
        prompt_text(turn, true) == history_text(turn.history@) + prompt_text(turn, false),
{
    assert(prompt_text(turn, false) =~= "User: "@ + turn.input@);
    assert(prompt_text(turn, true) =~= history_text(turn.history@) + prompt_text(turn, false));
}

/// A prompt and a command say what they are, which answer is theirs, and nothing but that.
pub proof fn commands_say_what_they_are(turn_id: Seq<char>, prompt: Seq<char>, kind: Seq<char>)
    ensures
        prompt_tree(turn_id, prompt).text_at("id"@) == Some(turn_id),
        prompt_tree(turn_id, prompt).text_at("type"@) == Some("prompt"@),
        prompt_tree(turn_id, prompt).text_at("message"@) == Some(prompt),
        command_tree(turn_id, kind).text_at("id"@) == Some(turn_id),
        command_tree(turn_id, kind).text_at("type"@) == Some(kind),
        forall|k: Seq<char>| #[trigger]
            prompt_tree(turn_id, prompt).get(k) is Some ==> k == "id"@ || k == "type"@ || k
                == "message"@,
        forall|k: Seq<char>| #[trigger]
            command_tree(turn_id, kind).get(k) is Some ==> k == "id"@ || k == "type"@,
{
    reveal_strlit("id");
    reveal_strlit("type");
    reveal_strlit("message");
    assert("id"@.len() == 2 && "type"@.len() == 4 && "message"@.len() == 7);
}

/// A turn whose backend is lost ends with one error that can be tried again, and the backend is
/// not kept; what was published and the session stay as they are.
pub proof fn lost_backends_end_the_turn(turn: TurnInput, run: RunView, progress: TurnProgress)
    requires
        progress is WriteFailed || progress is Exited || progress is ReadFailed,
    ensures
        ({
            let (next, events, step) = after_progress(turn, run, progress);
            &&& next == run
            &&& step == (TurnStep::Finish { keep_running: false })
            &&& events.len() == 1
            &&& events[0] is Error
            &&& events[0]->Error_0 == turn.request_id@
            &&& events[0]->Error_1 == turn.app_id@
            &&& events[0]->Error_2 == Some(turn.turn_id@)
            &&& events[0]->Error_3 == AgentErrorCode::BackendFailed
            &&& events[0]->Error_5
        }),
{
}

/// A cancellation aborts the turn and says nothing yet; the application may also think better of
/// it.
pub proof fn cancellations_abort_the_turn(turn: TurnInput, run: RunView)
    ensures
        after_progress(turn, run, TurnProgress::CancelChanged(true)) == (
            run,
            Seq::<EventView>::empty(),
            TurnStep::Abort,
        ),
        after_progress(turn, run, TurnProgress::CancelChanged(false)) == (
            run,
            Seq::<EventView>::empty(),
            TurnStep::Continue,
        ),
        forall|progress: TurnProgress| #[trigger]
            after_progress(turn, run, progress).2 == TurnStep::Abort ==> progress
                == TurnProgress::CancelChanged(true),
{
}

/// A line that completes the turn tells the application its answer, keeps the backend for the
/// next turn and counts the turn; the next prompt no longer needs the conversation.
pub proof fn completed_turns_keep_the_backend(
    turn: TurnInput,
    run: RunView,
    line: String,
    tree: JsonTree,
)
    requires
        run.accepted,
        run.session.command_sequence < u64::MAX,
        parsed_json(line@) == Some(tree),
        tree.text_at("type"@) == Some("agent_end"@),
    ensures
        ({
            let (next, events, step) = after_progress(turn, run, TurnProgress::Line(line));
            &&& step == (TurnStep::Finish { keep_running: true })
            &&& events.len() > 0
            &&& events.last() == EventView::Complete(turn.request_id@, turn.app_id@, turn.turn_id@)
            &&& run.published.len() > 0 ==> events[0] == EventView::TextDelta(
                turn.request_id@,
                turn.app_id@,
                turn.turn_id@,
                run.published,
            )
            &&& next.session.command_sequence == run.session.command_sequence + 1
            &&& !next.session.hydrate_history_on_next
        }),
{
    the_agents_end_completes_the_turn(tree, turn.turn_id@, run.published);
}

/// A refused prompt ends the turn with one error that is not worth another try; the backend is
/// kept, and the next prompt is put together as this one was.
pub proof fn refused_prompts_end_the_turn(
    turn: TurnInput,
    run: RunView,
    line: String,
    tree: JsonTree,
)
    requires
        parsed_json(line@) == Some(tree),
        tree.text_at("type"@) == Some("response"@),
        tree.text_at("id"@) == Some(turn.turn_id@),
        tree.text_at("command"@) == Some("prompt"@),
        tree.bool_at("success"@) != Some(true),
    ensures
        ({
            let (next, events, step) = after_progress(turn, run, TurnProgress::Line(line));
            &&& step == (TurnStep::Finish { keep_running: true })
            &&& next.session == run.session
            &&& next.published == run.published
            &&& events.len() == 1
            &&& events[0] is Error
            &&& events[0]->Error_2 == Some(turn.turn_id@)
            &&& events[0]->Error_3 == AgentErrorCode::BackendFailed
            &&& !events[0]->Error_5
            &&& tree.text_at("error"@) is Some ==> events[0]->Error_4 == tree.text_at("error"@)->0
        }),
{
}

/// As long as a turn goes on, the application hears nothing and the session does not change.
pub proof fn running_turns_are_quiet(turn: TurnInput, run: RunView, progress: TurnProgress)
    ensures
        ({
            let (next, events, step) = after_progress(turn, run, progress);
            &&& !(step is Finish) ==> events.len() == 0 && next.session == run.session
            &&& step is Finish ==> events.len() > 0
            &&& forall|i: int|
                0 <= i < events.len() - 1 ==> #[trigger] events[i] is TextDelta
            &&& step is Finish ==> events.last() is Complete || events.last() is Error
        }),
{
}

/// A wait for a response ends with the response, or with an error where the backend is gone, could
/// not be read or took too long.
pub proof fn waits_for_a_response_end(event: ResponseEvent, id: Seq<char>, command: Seq<char>)
    ensures
        response_result(event, id, command) is None ==> event is Line,
        event is Exited || event is TimedOut || event is ReadFailed ==> response_result(
            event,
            id,
            command,
        ) matches Some(Err(_)),
        event is Line && parsed_json(event->Line_0@) is None ==> response_result(event, id, command)
            is None,
        response_result(event, id, command) == Some(Ok::<(), Seq<char>>(())) ==> event is Line
            && parsed_json(event->Line_0@) is Some && parsed_json(event->Line_0@)->0.text_at("id"@)
            == Some(id) && parsed_json(event->Line_0@)->0.text_at("command"@) == Some(command)
            && parsed_json(event->Line_0@)->0.bool_at("success"@) == Some(true),
{
}

/// A line carries one document: it is one line of text, which reads as the document and nothing
/// else.
pub proof fn lines_carry_one_document(line: Seq<u8>, tree: JsonTree, other: JsonTree)
    requires
        carries(line, tree),
    ensures
        line.last() == 10,
        line_length(line) == line.len() - 1,
        valid_utf8(line.drop_last()),
        parsed_json(decode_utf8(line.drop_last())) == Some(tree),
        carries(line, other) ==> other == tree,
{
}

} // verus!
