//! What the notifications of the Codex app-server do to the conversations that show its threads.
use vstd::prelude::*;

use crate::actions::{
    actions, broadcast_list_changed, broadcast_stream, list_changed, message, persist_structured, persist_text, stream,
    text_message, Action, ActionList, ActionView,
};
use crate::buffers::{so_far, Streams, StreamsView};
use crate::items::{item_shown, or_empty, project_item, think, thought, unwrap_or_empty};
use crate::json::{i64_in, object, str_in, Json, Tree};
use crate::rows::{ConversationRowUpdate, ConversationView, UpdateView};
use crate::text::{concat, equals, same};
use crate::thread::{i64_at, status_of, thread_status};
use crate::wire::displayed;

verus! {

/// Which threads a notification is about.
#[derive(Debug, PartialEq)]
pub enum Route {
    /// It is about none.
    Nothing,
    /// It brings a thread that has been started.
    Started { thread: Json },
    /// It is about a thread.
    Thread { thread_id: String },
}

pub enum RouteView {
    Nothing,
    Started { thread: Tree },
    Thread { thread_id: Seq<char> },
}

impl View for Route {
    type V = RouteView;

    open spec fn view(&self) -> RouteView {
        match self {
            Route::Nothing => RouteView::Nothing,
            Route::Started { thread } => RouteView::Started { thread: thread@ },
            Route::Thread { thread_id } => RouteView::Thread { thread_id: thread_id@ },
        }
    }
}

/// Which threads a notification is about.
pub open spec fn route(method: Seq<char>, params: Tree) -> RouteView {
    if method == "thread/started"@ {
        match params.get("thread"@) {
            Some(thread) => RouteView::Started { thread },
            None => RouteView::Nothing,
        }
    } else {
        match params.str_at("threadId"@) {
            Some(thread_id) => RouteView::Thread { thread_id },
            None => RouteView::Nothing,
        }
    }
}

/// Which threads a notification is about.
pub fn notification_route(method: &str, params: &Json) -> (r: Route)
    ensures
        r@ == route(method@, params@),
{
    if same(method, "thread/started") {
        match params.get("thread") {
            Some(thread) => Route::Started { thread: thread.clone() },
            None => Route::Nothing,
        }
    } else {
        match params.str_at("threadId") {
            Some(thread_id) => Route::Thread { thread_id: thread_id.to_owned() },
            None => Route::Nothing,
        }
    }
}

/// The conversation's status changes.
pub open spec fn status_changes(conversation_id: Seq<char>, status: Seq<char>, now: i64) -> ActionView {
    ActionView::UpdateConversation {
        conversation_id,
        update: UpdateView { name: None, extra: None, status: Some(status), updated_at: Some(now) },
    }
}

fn change_status(conversation_id: &str, status: &str, now: i64) -> (r: Action)
    ensures
        r@ == status_changes(conversation_id@, status@, now),
{
    Action::UpdateConversation {
        conversation_id: conversation_id.to_owned(),
        update: ConversationRowUpdate {
            name: None,
            extra: None,
            status: Some(status.to_owned()),
            updated_at: Some(now),
        },
    }
}

/// The message that tells of the end of a turn.
pub open spec fn turn_completed(conversation_id: Seq<char>, turn_id: Seq<char>) -> ActionView {
    ActionView::Broadcast {
        name: "turn.completed"@,
        data: object().put("conversation_id"@, Tree::Str(conversation_id)).put(
            "session_id"@,
            Tree::Str(conversation_id),
        ).put("turn_id"@, Tree::Str(turn_id)).put("status"@, Tree::Str("finished"@)).put(
            "canSendMessage"@,
            Tree::Bool(true),
        ),
    }
}

fn broadcast_turn_completed(conversation_id: &str, turn_id: &str) -> (r: Action)
    ensures
        r@ == turn_completed(conversation_id@, turn_id@),
{
    Action::Broadcast {
        name: "turn.completed".to_owned(),
        data: Json::object().put("conversation_id", Json::str(conversation_id)).put(
            "session_id",
            Json::str(conversation_id),
        ).put("turn_id", Json::str(turn_id)).put("status", Json::str("finished")).put(
            "canSendMessage",
            Json::Bool(true),
        ),
    }
}

/// What is done when a turn starts.
pub open spec fn turn_starts(conversation_id: Seq<char>, turn_id: Seq<char>, now: i64) -> Seq<ActionView> {
    seq![
        ActionView::SetExternalTurn { conversation_id, turn_id },
        status_changes(conversation_id, "running"@, now),
        stream(conversation_id, turn_id, turn_id, "start"@, object(), None, now),
        list_changed(conversation_id, "updated"@),
    ]
}

fn start_turn(conversation_id: &str, turn_id: &str, now: i64) -> (r: Vec<Action>)
    ensures
        actions(r@) == turn_starts(conversation_id@, turn_id@, now),
{
    ActionList::new().and(
        Action::SetExternalTurn { conversation_id: conversation_id.to_owned(), turn_id: turn_id.to_owned() },
    ).and(change_status(conversation_id, "running", now)).and(
        broadcast_stream(conversation_id, turn_id, turn_id, "start", Json::object(), None, now),
    ).and(broadcast_list_changed(conversation_id, "updated")).done()
}

/// What is done when a turn ends.
pub open spec fn turn_ends(
    conversation_id: Seq<char>,
    thread_id: Seq<char>,
    turn_id: Seq<char>,
    now: i64,
) -> Seq<ActionView> {
    seq![
        ActionView::ClearExternalTurn { conversation_id, turn_id },
        status_changes(conversation_id, "finished"@, now),
        stream(conversation_id, turn_id, turn_id, "finish"@, object(), None, now),
        turn_completed(conversation_id, turn_id),
        ActionView::DeliverPending { conversation_id, thread_id },
    ]
}

fn end_turn(conversation_id: &str, thread_id: &str, turn_id: &str, now: i64) -> (r: Vec<Action>)
    ensures
        actions(r@) == turn_ends(conversation_id@, thread_id@, turn_id@, now),
{
    ActionList::new().and(
        Action::ClearExternalTurn {
            conversation_id: conversation_id.to_owned(),
            turn_id: turn_id.to_owned(),
        },
    ).and(change_status(conversation_id, "finished", now)).and(
        broadcast_stream(conversation_id, turn_id, turn_id, "finish", Json::object(), None, now),
    ).and(broadcast_turn_completed(conversation_id, turn_id)).and(
        Action::DeliverPending {
            conversation_id: conversation_id.to_owned(),
            thread_id: thread_id.to_owned(),
        },
    ).done()
}

/// What is shown of a command while it runs.
pub open spec fn running_command(item_id: Seq<char>, output: Seq<char>) -> Tree {
    object().put("call_id"@, Tree::Str(item_id)).put("name"@, Tree::Str("shell"@)).put(
        "status"@,
        Tree::Str("running"@),
    ).put("output"@, Tree::Str(output))
}

fn show_running_command(item_id: &str, output: &str) -> (r: Json)
    ensures
        r@ == running_command(item_id@, output@),
{
    Json::object().put("call_id", Json::str(item_id)).put("name", Json::str("shell")).put(
        "status",
        Json::str("running"),
    ).put("output", Json::str(output))
}

/// A part of a message comes: the message is stored as far as it has come, and the part is told.
pub open spec fn text_grows(
    streams: StreamsView,
    conversation_id: Seq<char>,
    turn_id: Seq<char>,
    item_id: Seq<char>,
    delta: Seq<char>,
    now: i64,
) -> (StreamsView, Seq<ActionView>) {
    let key = (conversation_id, item_id);
    let text = so_far(streams.text, key) + delta;
    (
        StreamsView { text: streams.text.insert(key, text), ..streams },
        seq![
            text_message(conversation_id, item_id, text, "left"@, "work"@, now),
            stream(
                conversation_id,
                item_id,
                turn_id,
                "content"@,
                object().put("content"@, Tree::Str(delta)),
                Some(("left"@, "work"@)),
                now,
            ),
        ],
    )
}

fn grow_text(
    streams: &mut Streams,
    conversation_id: &str,
    turn_id: &str,
    item_id: &str,
    delta: &str,
    now: i64,
) -> (r: Vec<Action>)
    ensures
        (final(streams)@, actions(r@)) == text_grows(
            old(streams)@,
            conversation_id@,
            turn_id@,
            item_id@,
            delta@,
            now,
        ),
        actions(r@)[0].stores_content(
            object().put("content"@, Tree::Str(so_far(old(streams)@.text, (conversation_id@, item_id@)) + delta@)),
        ),
{
    let text = streams.text.append(conversation_id, item_id, delta);
    ActionList::new().and(persist_text(conversation_id, item_id, text.as_str(), "left", "work", now)).and(
        broadcast_stream(
            conversation_id,
            item_id,
            turn_id,
            "content",
            Json::object().put("content", Json::str(delta)),
            Some(("left", "work")),
            now,
        ),
    ).done()
}

/// A part of the thinking comes.
pub open spec fn thinking_grows(
    streams: StreamsView,
    conversation_id: Seq<char>,
    turn_id: Seq<char>,
    item_id: Seq<char>,
    delta: Seq<char>,
    now: i64,
) -> (StreamsView, Seq<ActionView>) {
    let key = (conversation_id, item_id);
    let text = so_far(streams.thinking, key) + delta;
    (
        StreamsView { thinking: streams.thinking.insert(key, text), ..streams },
        seq![
            message(
                conversation_id,
                "thinking-"@ + item_id,
                item_id,
                "thinking"@,
                thought(text, "thinking"@),
                "left"@,
                "work"@,
                now,
            ),
            stream(conversation_id, item_id, turn_id, "thinking"@, thought(delta, "thinking"@), None, now),
        ],
    )
}

fn grow_thinking(
    streams: &mut Streams,
    conversation_id: &str,
    turn_id: &str,
    item_id: &str,
    delta: &str,
    now: i64,
) -> (r: Vec<Action>)
    ensures
        (final(streams)@, actions(r@)) == thinking_grows(
            old(streams)@,
            conversation_id@,
            turn_id@,
            item_id@,
            delta@,
            now,
        ),
        actions(r@)[0].stores_content(
            thought(so_far(old(streams)@.thinking, (conversation_id@, item_id@)) + delta@, "thinking"@),
        ),
{
    proof {
        broadcast use crate::wire::a_document_stays_readable_with_a_member;

    }
    let text = streams.thinking.append(conversation_id, item_id, delta);
    ActionList::new().and(
        persist_structured(
            conversation_id,
            concat("thinking-", item_id).as_str(),
            item_id,
            "thinking",
            &think(text.as_str(), "thinking"),
            "left",
            "work",
            now,
        ),
    ).and(
        broadcast_stream(
            conversation_id,
            item_id,
            turn_id,
            "thinking",
            think(delta, "thinking"),
            None,
            now,
        ),
    ).done()
}

/// A part of a command's output comes.
pub open spec fn output_grows(
    streams: StreamsView,
    conversation_id: Seq<char>,
    turn_id: Seq<char>,
    item_id: Seq<char>,
    delta: Seq<char>,
    now: i64,
) -> (StreamsView, Seq<ActionView>) {
    let key = (conversation_id, item_id);
    let output = so_far(streams.output, key) + delta;
    let data = running_command(item_id, output);
    (
        StreamsView { output: streams.output.insert(key, output), ..streams },
        seq![
            message(conversation_id, item_id, item_id, "tool_call"@, data, "left"@, "work"@, now),
            stream(conversation_id, item_id, turn_id, "tool_call"@, data, None, now),
        ],
    )
}

fn grow_output(
    streams: &mut Streams,
    conversation_id: &str,
    turn_id: &str,
    item_id: &str,
    delta: &str,
    now: i64,
) -> (r: Vec<Action>)
    ensures
        (final(streams)@, actions(r@)) == output_grows(
            old(streams)@,
            conversation_id@,
            turn_id@,
            item_id@,
            delta@,
            now,
        ),
        actions(r@)[0].stores_content(
            running_command(
                item_id@,
                so_far(old(streams)@.output, (conversation_id@, item_id@)) + delta@,
            ),
        ),
{
    proof {
        broadcast use crate::wire::a_document_stays_readable_with_a_member;

    }
    let output = streams.output.append(conversation_id, item_id, delta);
    let data = show_running_command(item_id, output.as_str());
    ActionList::new().and(
        persist_structured(conversation_id, item_id, item_id, "tool_call", &data, "left", "work", now),
    ).and(broadcast_stream(conversation_id, item_id, turn_id, "tool_call", data, None, now)).done()
}

/// A turn fails.
pub open spec fn turn_fails(conversation_id: Seq<char>, params: Tree, now: i64) -> Seq<ActionView> {
    let turn_id = or_empty(params.str_at("turnId"@));
    let message = match str_in(params.get_in("error"@, "message"@)) {
        Some(message) => message,
        None => "Codex turn failed"@,
    };
    seq![
        stream(
            conversation_id,
            turn_id,
            turn_id,
            "error"@,
            object().put("message"@, Tree::Str(message)),
            None,
            now,
        ),
    ]
}

fn fail_turn(conversation_id: &str, params: &Json, now: i64) -> (r: Vec<Action>)
    ensures
        actions(r@) == turn_fails(conversation_id@, params@, now),
{
    let turn_id = unwrap_or_empty(params.str_at("turnId"));
    let message = match params.get_in("error", "message") {
        Some(message) => match message.as_str() {
            Some(message) => message,
            None => "Codex turn failed",
        },
        None => "Codex turn failed",
    };
    ActionList::new().and(
        broadcast_stream(
            conversation_id,
            turn_id,
            turn_id,
            "error",
            Json::object().put("message", Json::str(message)),
            None,
            now,
        ),
    ).done()
}

/// What is done for the status that a thread reports: where it is idle, its conversation is
/// finished. Any other status makes no difference.
pub open spec fn status_reported(conversation_id: Seq<char>, params: Tree) -> Seq<ActionView> {
    if status_of(params) == Some("idle"@) {
        seq![
            ActionView::UpdateConversation {
                conversation_id,
                update: UpdateView { name: None, extra: None, status: Some("finished"@), updated_at: None },
            },
        ]
    } else {
        Seq::empty()
    }
}

fn report_status(conversation_id: &str, params: &Json) -> (r: Vec<Action>)
    ensures
        actions(r@) == status_reported(conversation_id@, params@),
{
    let update = ConversationRowUpdate {
        name: None,
        extra: None,
        status: Some("finished".to_owned()),
        updated_at: None,
    };
    ActionList::new().and_if(
        equals(thread_status(params), "idle"),
        Action::UpdateConversation { conversation_id: conversation_id.to_owned(), update },
    ).done()
}

/// The time that a notification gives, or now.
pub open spec fn time_in(params: Tree, key: Seq<char>, now: i64) -> i64 {
    match i64_in(params.get(key)) {
        Some(time) => time,
        None => now,
    }
}

fn time_at(params: &Json, key: &str, now: i64) -> (r: i64)
    ensures
        r == time_in(params@, key@, now),
{
    match i64_at(params, key) {
        Some(time) => time,
        None => now,
    }
}

/// What a notification about a thread does for one conversation that shows the thread.
pub open spec fn shown(
    streams: StreamsView,
    conversation_id: Seq<char>,
    thread_id: Seq<char>,
    method: Seq<char>,
    params: Tree,
    now: i64,
) -> (StreamsView, Seq<ActionView>) {
    let nothing = (streams, Seq::<ActionView>::empty());
    let turn = str_in(params.get_in("turn"@, "id"@));
    let turn_id = or_empty(params.str_at("turnId"@));
    let item_id = params.str_at("itemId"@);
    let delta = or_empty(params.str_at("delta"@));
    if method == "turn/started"@ {
        match turn {
            Some(turn) => (streams, turn_starts(conversation_id, turn, now)),
            None => nothing,
        }
    } else if method == "turn/completed"@ {
        match turn {
            Some(turn) => (streams, turn_ends(conversation_id, thread_id, turn, now)),
            None => nothing,
        }
    } else if method == "item/agentMessage/delta"@ {
        match item_id {
            Some(item_id) => text_grows(streams, conversation_id, turn_id, item_id, delta, now),
            None => nothing,
        }
    } else if method == "item/reasoning/summaryTextDelta"@ || method == "item/reasoning/textDelta"@ {
        match item_id {
            Some(item_id) => thinking_grows(streams, conversation_id, turn_id, item_id, delta, now),
            None => nothing,
        }
    } else if method == "item/commandExecution/outputDelta"@ {
        match item_id {
            Some(item_id) => output_grows(streams, conversation_id, turn_id, item_id, delta, now),
            None => nothing,
        }
    } else if method == "item/started"@ {
        match params.get("item"@) {
            Some(item) => item_shown(
                streams,
                conversation_id,
                turn_id,
                item,
                time_in(params, "startedAtMs"@, now),
                true,
                false,
                now,
            ),
            None => nothing,
        }
    } else if method == "item/completed"@ {
        match params.get("item"@) {
            Some(item) => item_shown(
                streams,
                conversation_id,
                turn_id,
                item,
                time_in(params, "completedAtMs"@, now),
                true,
                true,
                now,
            ),
            None => nothing,
        }
    } else if method == "thread/status/changed"@ {
        (streams, status_reported(conversation_id, params))
    } else if method == "error"@ {
        (streams, turn_fails(conversation_id, params, now))
    } else {
        nothing
    }
}

/// The document that is read back from what is stored for a part that comes: all that has come for
/// its item so far.
pub open spec fn read_after_delta(
    streams: StreamsView,
    conversation_id: Seq<char>,
    method: Seq<char>,
    params: Tree,
) -> Option<Tree> {
    let delta = or_empty(params.str_at("delta"@));
    match params.str_at("itemId"@) {
        Some(item_id) => {
            let key = (conversation_id, item_id);
            if method == "item/agentMessage/delta"@ {
                Some(object().put("content"@, Tree::Str(so_far(streams.text, key) + delta)))
            } else if method == "item/reasoning/summaryTextDelta"@ || method == "item/reasoning/textDelta"@ {
                Some(thought(so_far(streams.thinking, key) + delta, "thinking"@))
            } else if method == "item/commandExecution/outputDelta"@ {
                Some(running_command(item_id, so_far(streams.output, key) + delta))
            } else {
                None
            }
        },
        None => None,
    }
}

proof fn lemma_deltas_are_no_turns()
    ensures
        "turn/started"@ != "item/agentMessage/delta"@,
        "turn/completed"@ != "item/agentMessage/delta"@,
        "turn/started"@ != "item/reasoning/summaryTextDelta"@,
        "turn/completed"@ != "item/reasoning/summaryTextDelta"@,
        "turn/started"@ != "item/reasoning/textDelta"@,
        "turn/completed"@ != "item/reasoning/textDelta"@,
        "turn/started"@ != "item/commandExecution/outputDelta"@,
        "turn/completed"@ != "item/commandExecution/outputDelta"@,
{
    reveal_strlit("turn/started");
    reveal_strlit("turn/completed");
    reveal_strlit("item/agentMessage/delta");
    reveal_strlit("item/reasoning/summaryTextDelta");
    reveal_strlit("item/reasoning/textDelta");
    reveal_strlit("item/commandExecution/outputDelta");
    assert("turn/started"@[0] == 't' && "turn/completed"@[0] == 't');
    assert("item/agentMessage/delta"@[0] == 'i' && "item/reasoning/summaryTextDelta"@[0] == 'i');
    assert("item/reasoning/textDelta"@[0] == 'i' && "item/commandExecution/outputDelta"@[0] == 'i');
}

/// What a notification about a thread does for one conversation that shows the thread.
pub fn project_notification(
    streams: &mut Streams,
    conversation_id: &str,
    thread_id: &str,
    method: &str,
    params: &Json,
    now: i64,
) -> (r: Vec<Action>)
    ensures
        (final(streams)@, actions(r@)) == shown(
            old(streams)@,
            conversation_id@,
            thread_id@,
            method@,
            params@,
            now,
        ),
        read_after_delta(old(streams)@, conversation_id@, method@, params@) matches Some(content) ==> actions(
            r@,
        )[0].stores_content(content),
{
    proof {
        lemma_deltas_are_no_turns();
    }
    let turn = match params.get_in("turn", "id") {
        Some(turn) => turn.as_str(),
        None => None,
    };
    let turn_id = unwrap_or_empty(params.str_at("turnId"));
    let delta = unwrap_or_empty(params.str_at("delta"));
    let nothing = ActionList::new();
    if same(method, "turn/started") {
        match turn {
            Some(turn) => start_turn(conversation_id, turn, now),
            None => nothing.done(),
        }
    } else if same(method, "turn/completed") {
        match turn {
            Some(turn) => end_turn(conversation_id, thread_id, turn, now),
            None => nothing.done(),
        }
    } else if same(method, "item/agentMessage/delta") {
        match params.str_at("itemId") {
            Some(item_id) => grow_text(streams, conversation_id, turn_id, item_id, delta, now),
            None => nothing.done(),
        }
    } else if same(method, "item/reasoning/summaryTextDelta") || same(method, "item/reasoning/textDelta") {
        match params.str_at("itemId") {
            Some(item_id) => grow_thinking(streams, conversation_id, turn_id, item_id, delta, now),
            None => nothing.done(),
        }
    } else if same(method, "item/commandExecution/outputDelta") {
        match params.str_at("itemId") {
            Some(item_id) => grow_output(streams, conversation_id, turn_id, item_id, delta, now),
            None => nothing.done(),
        }
    } else if same(method, "item/started") {
        match params.get("item") {
            Some(item) => project_item(
                streams,
                conversation_id,
                turn_id,
                item,
                time_at(params, "startedAtMs", now),
                true,
                false,
                now,
            ),
            None => nothing.done(),
        }
    } else if same(method, "item/completed") {
        match params.get("item") {
            Some(item) => project_item(
                streams,
                conversation_id,
                turn_id,
                item,
                time_at(params, "completedAtMs", now),
                true,
                true,
                now,
            ),
            None => nothing.done(),
        }
    } else if same(method, "thread/status/changed") {
        report_status(conversation_id, params)
    } else if same(method, "error") {
        fail_turn(conversation_id, params, now)
    } else {
        nothing.done()
    }
}

/// A part of what comes for an item, and the time at which it comes.
pub struct PartView {
    pub delta: Seq<char>,
    pub now: i64,
}

/// The parts, put together in the order in which they come.
pub open spec fn together(parts: Seq<PartView>) -> Seq<char>
    decreases parts.len(),
{
    if parts.len() == 0 {
        Seq::empty()
    } else {
        together(parts.drop_last()) + parts.last().delta
    }
}

/// The streams once all parts of a message have come, and what is done for the last of them.
pub open spec fn text_parts(
    streams: StreamsView,
    conversation_id: Seq<char>,
    turn_id: Seq<char>,
    item_id: Seq<char>,
    parts: Seq<PartView>,
) -> (StreamsView, Seq<ActionView>)
    decreases parts.len(),
{
    if parts.len() == 0 {
        (streams, Seq::empty())
    } else {
        let before = text_parts(streams, conversation_id, turn_id, item_id, parts.drop_last()).0;
        text_grows(before, conversation_id, turn_id, item_id, parts.last().delta, parts.last().now)
    }
}

/// The streams once all parts of the thinking have come, and what is done for the last of them.
pub open spec fn thinking_parts(
    streams: StreamsView,
    conversation_id: Seq<char>,
    turn_id: Seq<char>,
    item_id: Seq<char>,
    parts: Seq<PartView>,
) -> (StreamsView, Seq<ActionView>)
    decreases parts.len(),
{
    if parts.len() == 0 {
        (streams, Seq::empty())
    } else {
        let before = thinking_parts(streams, conversation_id, turn_id, item_id, parts.drop_last()).0;
        thinking_grows(before, conversation_id, turn_id, item_id, parts.last().delta, parts.last().now)
    }
}

/// The streams once all parts of a command's output have come, and what is done for the last of them.
pub open spec fn output_parts(
    streams: StreamsView,
    conversation_id: Seq<char>,
    turn_id: Seq<char>,
    item_id: Seq<char>,
    parts: Seq<PartView>,
) -> (StreamsView, Seq<ActionView>)
    decreases parts.len(),
{
    if parts.len() == 0 {
        (streams, Seq::empty())
    } else {
        let before = output_parts(streams, conversation_id, turn_id, item_id, parts.drop_last()).0;
        output_grows(before, conversation_id, turn_id, item_id, parts.last().delta, parts.last().now)
    }
}

/// What has come of a message, of the thinking or of a command's output grows by each of its parts,
/// in the order in which they come, however many there are, and what is stored with the last of them
/// is the whole.
pub proof fn the_parts_of_a_message_add_up(
    streams: StreamsView,
    conversation_id: Seq<char>,
    turn_id: Seq<char>,
    item_id: Seq<char>,
    parts: Seq<PartView>,
)
    ensures
        ({
            let key = (conversation_id, item_id);
            let (after, done) = text_parts(streams, conversation_id, turn_id, item_id, parts);
            let text = so_far(streams.text, key) + together(parts);
            &&& so_far(after.text, key) == text
            &&& parts.len() > 0 ==> done[0] == text_message(
                conversation_id,
                item_id,
                text,
                "left"@,
                "work"@,
                parts.last().now,
            )
        }),
        ({
            let key = (conversation_id, item_id);
            let (after, done) = thinking_parts(streams, conversation_id, turn_id, item_id, parts);
            let text = so_far(streams.thinking, key) + together(parts);
            &&& so_far(after.thinking, key) == text
            &&& parts.len() > 0 ==> done[0] == message(
                conversation_id,
                "thinking-"@ + item_id,
                item_id,
                "thinking"@,
                thought(text, "thinking"@),
                "left"@,
                "work"@,
                parts.last().now,
            )
        }),
        ({
            let key = (conversation_id, item_id);
            let (after, done) = output_parts(streams, conversation_id, turn_id, item_id, parts);
            let output = so_far(streams.output, key) + together(parts);
            &&& so_far(after.output, key) == output
            &&& parts.len() > 0 ==> done[0] == message(
                conversation_id,
                item_id,
                item_id,
                "tool_call"@,
                running_command(item_id, output),
                "left"@,
                "work"@,
                parts.last().now,
            )
        }),
    decreases parts.len(),
{
    let key = (conversation_id, item_id);
    let whole = together(parts);
    if parts.len() > 0 {
        let before = parts.drop_last();
        let delta = parts.last().delta;
        the_parts_of_a_message_add_up(streams, conversation_id, turn_id, item_id, before);
        assert(so_far(streams.text, key) + together(before) + delta =~= so_far(streams.text, key) + whole);
        assert(so_far(streams.thinking, key) + together(before) + delta =~= so_far(streams.thinking, key) + whole);
        assert(so_far(streams.output, key) + together(before) + delta =~= so_far(streams.output, key) + whole);
    } else {
        assert(so_far(streams.text, key) + whole =~= so_far(streams.text, key));
        assert(so_far(streams.thinking, key) + whole =~= so_far(streams.thinking, key));
        assert(so_far(streams.output, key) + whole =~= so_far(streams.output, key));
    }
}

/// The id of the item that a notification is about.
pub open spec fn item_about(method: Seq<char>, params: Tree) -> Seq<char> {
    if method == "item/started"@ || method == "item/completed"@ {
        match params.get("item"@) {
            Some(item) => or_empty(item.str_at("id"@)),
            None => ""@,
        }
    } else {
        or_empty(params.str_at("itemId"@))
    }
}

/// What comes for one item of one conversation makes no difference to any other.
pub proof fn streams_are_kept_apart(
    streams: StreamsView,
    conversation_id: Seq<char>,
    thread_id: Seq<char>,
    method: Seq<char>,
    params: Tree,
    now: i64,
    other: (Seq<char>, Seq<char>),
)
    requires
        other != (conversation_id, item_about(method, params)),
    ensures
        ({
            let after = shown(streams, conversation_id, thread_id, method, params, now).0;
            &&& so_far(after.text, other) == so_far(streams.text, other)
            &&& so_far(after.thinking, other) == so_far(streams.thinking, other)
            &&& so_far(after.output, other) == so_far(streams.output, other)
        }),
{
    lemma_items_are_no_parts();
}

proof fn lemma_items_are_no_parts()
    ensures
        "item/started"@ != "item/agentMessage/delta"@,
        "item/started"@ != "item/reasoning/summaryTextDelta"@,
        "item/started"@ != "item/reasoning/textDelta"@,
        "item/started"@ != "item/commandExecution/outputDelta"@,
        "item/completed"@ != "item/agentMessage/delta"@,
        "item/completed"@ != "item/reasoning/summaryTextDelta"@,
        "item/completed"@ != "item/reasoning/textDelta"@,
        "item/completed"@ != "item/commandExecution/outputDelta"@,
{
    reveal_strlit("item/started");
    reveal_strlit("item/completed");
    reveal_strlit("item/agentMessage/delta");
    reveal_strlit("item/reasoning/summaryTextDelta");
    reveal_strlit("item/reasoning/textDelta");
    reveal_strlit("item/commandExecution/outputDelta");
    assert("item/started"@.len() == 12 && "item/completed"@.len() == 14);
    assert("item/agentMessage/delta"@.len() > 14 && "item/reasoning/summaryTextDelta"@.len() > 14);
    assert("item/reasoning/textDelta"@.len() > 14 && "item/commandExecution/outputDelta"@.len() > 14);
}

/// A message that has come in parts is stored whole when it is complete; nobody is told it again,
/// and nothing of it is kept as a part.
pub proof fn a_streamed_message_is_told_once(
    streams: StreamsView,
    conversation_id: Seq<char>,
    turn_id: Seq<char>,
    item: Tree,
    delta: Seq<char>,
    created_at: i64,
    now: i64,
)
    requires
        item.str_at("type"@) == Some("agentMessage"@),
        item.str_at("id"@) is Some,
        item.str_at("id"@)->0 != ""@,
    ensures
        ({
            let id = item.str_at("id"@)->0;
            let streamed = text_grows(streams, conversation_id, turn_id, id, delta, now).0;
            let (after, done) = item_shown(
                streamed,
                conversation_id,
                turn_id,
                item,
                created_at,
                true,
                true,
                now,
            );
            &&& !after.text.contains_key((conversation_id, id))
            &&& done == seq![
                text_message(
                    conversation_id,
                    id,
                    or_empty(item.str_at("text"@)),
                    "left"@,
                    "finish"@,
                    created_at,
                ),
            ]
        }),
{
    reveal_strlit("agentMessage");
    reveal_strlit("userMessage");
    assert("agentMessage"@.len() != "userMessage"@.len());
}

/// When a turn is completed, it no longer runs in the conversation, and what waited for its end is
/// delivered to the thread.
pub proof fn the_end_of_a_turn_delivers_what_waits(
    streams: StreamsView,
    conversation_id: Seq<char>,
    thread_id: Seq<char>,
    params: Tree,
    now: i64,
)
    requires
        str_in(params.get_in("turn"@, "id"@)) is Some,
    ensures
        ({
            let turn_id = str_in(params.get_in("turn"@, "id"@))->0;
            let done = shown(streams, conversation_id, thread_id, "turn/completed"@, params, now).1;
            &&& done.contains(ActionView::ClearExternalTurn { conversation_id, turn_id })
            &&& done.contains(status_changes(conversation_id, "finished"@, now))
            &&& done.last() == (ActionView::DeliverPending { conversation_id, thread_id })
        }),
{
    reveal_strlit("turn/started");
    reveal_strlit("turn/completed");
    assert("turn/started"@.len() != "turn/completed"@.len());
    let turn_id = str_in(params.get_in("turn"@, "id"@))->0;
    let done = shown(streams, conversation_id, thread_id, "turn/completed"@, params, now).1;
    assert(done == turn_ends(conversation_id, thread_id, turn_id, now));
    assert(done[0] == (ActionView::ClearExternalTurn { conversation_id, turn_id }));
    assert(done[1] == status_changes(conversation_id, "finished"@, now));
}

proof fn lemma_all_methods()
    ensures
        "turn/started"@ != "turn/completed"@,
        "turn/started"@ != "item/agentMessage/delta"@,
        "turn/started"@ != "item/reasoning/summaryTextDelta"@,
        "turn/started"@ != "item/reasoning/textDelta"@,
        "turn/started"@ != "item/commandExecution/outputDelta"@,
        "turn/started"@ != "item/started"@,
        "turn/started"@ != "item/completed"@,
        "turn/started"@ != "thread/status/changed"@,
        "turn/started"@ != "error"@,
        "turn/completed"@ != "item/agentMessage/delta"@,
        "turn/completed"@ != "item/reasoning/summaryTextDelta"@,
        "turn/completed"@ != "item/reasoning/textDelta"@,
        "turn/completed"@ != "item/commandExecution/outputDelta"@,
        "turn/completed"@ != "item/started"@,
        "turn/completed"@ != "item/completed"@,
        "turn/completed"@ != "thread/status/changed"@,
        "turn/completed"@ != "error"@,
        "item/agentMessage/delta"@ != "item/reasoning/summaryTextDelta"@,
        "item/agentMessage/delta"@ != "item/reasoning/textDelta"@,
        "item/agentMessage/delta"@ != "item/commandExecution/outputDelta"@,
        "item/agentMessage/delta"@ != "item/started"@,
        "item/agentMessage/delta"@ != "item/completed"@,
        "item/agentMessage/delta"@ != "thread/status/changed"@,
        "item/agentMessage/delta"@ != "error"@,
        "item/reasoning/summaryTextDelta"@ != "item/reasoning/textDelta"@,
        "item/reasoning/summaryTextDelta"@ != "item/commandExecution/outputDelta"@,
        "item/reasoning/summaryTextDelta"@ != "item/started"@,
        "item/reasoning/summaryTextDelta"@ != "item/completed"@,
        "item/reasoning/summaryTextDelta"@ != "thread/status/changed"@,
        "item/reasoning/summaryTextDelta"@ != "error"@,
        "item/reasoning/textDelta"@ != "item/commandExecution/outputDelta"@,
        "item/reasoning/textDelta"@ != "item/started"@,
        "item/reasoning/textDelta"@ != "item/completed"@,
        "item/reasoning/textDelta"@ != "thread/status/changed"@,
        "item/reasoning/textDelta"@ != "error"@,
        "item/commandExecution/outputDelta"@ != "item/started"@,
        "item/commandExecution/outputDelta"@ != "item/completed"@,
        "item/commandExecution/outputDelta"@ != "thread/status/changed"@,
        "item/commandExecution/outputDelta"@ != "error"@,
        "item/started"@ != "item/completed"@,
        "item/started"@ != "thread/status/changed"@,
        "item/started"@ != "error"@,
        "item/completed"@ != "thread/status/changed"@,
        "item/completed"@ != "error"@,
        "thread/status/changed"@ != "error"@,
{
    reveal_strlit("turn/started");
    reveal_strlit("turn/completed");
    reveal_strlit("item/agentMessage/delta");
    reveal_strlit("item/reasoning/summaryTextDelta");
    reveal_strlit("item/reasoning/textDelta");
    reveal_strlit("item/commandExecution/outputDelta");
    reveal_strlit("item/started");
    reveal_strlit("item/completed");
    reveal_strlit("thread/status/changed");
    reveal_strlit("error");
    assert("turn/started"@.len() != "turn/completed"@.len());
    assert("turn/started"@.len() != "item/agentMessage/delta"@.len());
    assert("turn/started"@.len() != "item/reasoning/summaryTextDelta"@.len());
    assert("turn/started"@.len() != "item/reasoning/textDelta"@.len());
    assert("turn/started"@.len() != "item/commandExecution/outputDelta"@.len());
    assert("turn/started"@[0] != "item/started"@[0]);
    assert("turn/started"@.len() != "item/completed"@.len());
    assert("turn/started"@.len() != "thread/status/changed"@.len());
    assert("turn/started"@.len() != "error"@.len());
    assert("turn/completed"@.len() != "item/agentMessage/delta"@.len());
    assert("turn/completed"@.len() != "item/reasoning/summaryTextDelta"@.len());
    assert("turn/completed"@.len() != "item/reasoning/textDelta"@.len());
    assert("turn/completed"@.len() != "item/commandExecution/outputDelta"@.len());
    assert("turn/completed"@.len() != "item/started"@.len());
    assert("turn/completed"@[0] != "item/completed"@[0]);
    assert("turn/completed"@.len() != "thread/status/changed"@.len());
    assert("turn/completed"@.len() != "error"@.len());
    assert("item/agentMessage/delta"@.len() != "item/reasoning/summaryTextDelta"@.len());
    assert("item/agentMessage/delta"@.len() != "item/reasoning/textDelta"@.len());
    assert("item/agentMessage/delta"@.len() != "item/commandExecution/outputDelta"@.len());
    assert("item/agentMessage/delta"@.len() != "item/started"@.len());
    assert("item/agentMessage/delta"@.len() != "item/completed"@.len());
    assert("item/agentMessage/delta"@.len() != "thread/status/changed"@.len());
    assert("item/agentMessage/delta"@.len() != "error"@.len());
    assert("item/reasoning/summaryTextDelta"@.len() != "item/reasoning/textDelta"@.len());
    assert("item/reasoning/summaryTextDelta"@.len() != "item/commandExecution/outputDelta"@.len());
    assert("item/reasoning/summaryTextDelta"@.len() != "item/started"@.len());
    assert("item/reasoning/summaryTextDelta"@.len() != "item/completed"@.len());
    assert("item/reasoning/summaryTextDelta"@.len() != "thread/status/changed"@.len());
    assert("item/reasoning/summaryTextDelta"@.len() != "error"@.len());
    assert("item/reasoning/textDelta"@.len() != "item/commandExecution/outputDelta"@.len());
    assert("item/reasoning/textDelta"@.len() != "item/started"@.len());
    assert("item/reasoning/textDelta"@.len() != "item/completed"@.len());
    assert("item/reasoning/textDelta"@.len() != "thread/status/changed"@.len());
    assert("item/reasoning/textDelta"@.len() != "error"@.len());
    assert("item/commandExecution/outputDelta"@.len() != "item/started"@.len());
    assert("item/commandExecution/outputDelta"@.len() != "item/completed"@.len());
    assert("item/commandExecution/outputDelta"@.len() != "thread/status/changed"@.len());
    assert("item/commandExecution/outputDelta"@.len() != "error"@.len());
    assert("item/started"@.len() != "item/completed"@.len());
    assert("item/started"@.len() != "thread/status/changed"@.len());
    assert("item/started"@.len() != "error"@.len());
    assert("item/completed"@.len() != "thread/status/changed"@.len());
    assert("item/completed"@.len() != "error"@.len());
    assert("thread/status/changed"@.len() != "error"@.len());
}
proof fn lemma_told_names()
    ensures
        "conversation_id"@ != "session_id"@,
        "conversation_id"@ != "turn_id"@,
        "conversation_id"@ != "status"@,
        "conversation_id"@ != "canSendMessage"@,
        "session_id"@ != "turn_id"@,
        "session_id"@ != "status"@,
        "session_id"@ != "canSendMessage"@,
        "turn_id"@ != "status"@,
        "turn_id"@ != "canSendMessage"@,
        "status"@ != "canSendMessage"@,
{
    reveal_strlit("conversation_id");
    reveal_strlit("session_id");
    reveal_strlit("turn_id");
    reveal_strlit("status");
    reveal_strlit("canSendMessage");
    assert("conversation_id"@.len() != "session_id"@.len());
    assert("conversation_id"@.len() != "turn_id"@.len());
    assert("conversation_id"@.len() != "status"@.len());
    assert("conversation_id"@.len() != "canSendMessage"@.len());
    assert("session_id"@.len() != "turn_id"@.len());
    assert("session_id"@.len() != "status"@.len());
    assert("session_id"@.len() != "canSendMessage"@.len());
    assert("turn_id"@.len() != "status"@.len());
    assert("turn_id"@.len() != "canSendMessage"@.len());
    assert("status"@.len() != "canSendMessage"@.len());
}
proof fn lemma_shown_names()
    ensures
        "content"@ != "status"@,
        "content"@ != "call_id"@,
        "content"@ != "name"@,
        "content"@ != "output"@,
        "status"@ != "call_id"@,
        "status"@ != "name"@,
        "status"@ != "output"@,
        "call_id"@ != "name"@,
        "call_id"@ != "output"@,
        "name"@ != "output"@,
{
    reveal_strlit("content");
    reveal_strlit("status");
    reveal_strlit("call_id");
    reveal_strlit("name");
    reveal_strlit("output");
    assert("content"@.len() != "status"@.len());
    assert("content"@[1] != "call_id"@[1]);
    assert("content"@.len() != "name"@.len());
    assert("content"@.len() != "output"@.len());
    assert("status"@.len() != "call_id"@.len());
    assert("status"@.len() != "name"@.len());
    assert("status"@[0] != "output"@[0]);
    assert("call_id"@.len() != "name"@.len());
    assert("call_id"@.len() != "output"@.len());
    assert("name"@.len() != "output"@.len());
}

/// A part of the stream of this conversation is told, of this message and this turn, with this type.
pub open spec fn is_told(
    action: ActionView,
    conversation_id: Seq<char>,
    msg_id: Seq<char>,
    turn_id: Seq<char>,
    message_type: Seq<char>,
    now: i64,
) -> bool {
    action matches ActionView::Broadcast { name, data } && {
        &&& name == "message.stream"@
        &&& data.get("type"@) == Some(Tree::Str(message_type))
        &&& data.get("conversation_id"@) == Some(Tree::Str(conversation_id))
        &&& data.get("msg_id"@) == Some(Tree::Str(msg_id))
        &&& data.get("turn_id"@) == Some(Tree::Str(turn_id))
        &&& data.get("hidden"@) == Some(Tree::Bool(false))
        &&& data.get("created_at"@) == Some(Tree::Int(now))
    }
}

/// A turn that starts runs in the conversation, which is then running. That is told in the stream of
/// the conversation and in the list of them, and nothing else is done.
pub proof fn the_start_of_a_turn_is_shown(
    streams: StreamsView,
    conversation_id: Seq<char>,
    thread_id: Seq<char>,
    params: Tree,
    now: i64,
    turn_id: Seq<char>,
    conversation: ConversationView,
)
    requires
        params.get_in("turn"@, "id"@) == Some(Tree::Str(turn_id)),
    ensures
        ({
            let (after, done) = shown(streams, conversation_id, thread_id, "turn/started"@, params, now);
            &&& after == streams
            &&& done.len() == 4
            &&& done[0] == (ActionView::SetExternalTurn { conversation_id, turn_id })
            &&& done[1] matches ActionView::UpdateConversation { conversation_id: id, update } && {
                &&& id == conversation_id
                &&& conversation.updated(update) == (ConversationView {
                    status: Some("running"@),
                    updated_at: now,
                    ..conversation
                })
            }
            &&& is_told(done[2], conversation_id, turn_id, turn_id, "start"@, now)
            &&& done[3] == list_changed(conversation_id, "updated"@)
        }),
{
    crate::actions::a_part_of_a_stream_says_what_it_is(
        conversation_id,
        turn_id,
        turn_id,
        "start"@,
        object(),
        None,
        now,
    );
}

/// A turn that ends no longer runs in the conversation, which is then finished. That is told in the
/// stream of the conversation and as the end of the turn, after which an input can be sent; and what
/// waited for it is delivered.
pub proof fn the_end_of_a_turn_is_shown(
    streams: StreamsView,
    conversation_id: Seq<char>,
    thread_id: Seq<char>,
    params: Tree,
    now: i64,
    turn_id: Seq<char>,
    conversation: ConversationView,
)
    requires
        params.get_in("turn"@, "id"@) == Some(Tree::Str(turn_id)),
    ensures
        ({
            let (after, done) = shown(streams, conversation_id, thread_id, "turn/completed"@, params, now);
            &&& after == streams
            &&& done.len() == 5
            &&& done[0] == (ActionView::ClearExternalTurn { conversation_id, turn_id })
            &&& done[1] matches ActionView::UpdateConversation { conversation_id: id, update } && {
                &&& id == conversation_id
                &&& conversation.updated(update) == (ConversationView {
                    status: Some("finished"@),
                    updated_at: now,
                    ..conversation
                })
            }
            &&& is_told(done[2], conversation_id, turn_id, turn_id, "finish"@, now)
            &&& done[3] matches ActionView::Broadcast { name, data } && {
                &&& name == "turn.completed"@
                &&& data.get("conversation_id"@) == Some(Tree::Str(conversation_id))
                &&& data.get("session_id"@) == Some(Tree::Str(conversation_id))
                &&& data.get("turn_id"@) == Some(Tree::Str(turn_id))
                &&& data.get("status"@) == Some(Tree::Str("finished"@))
                &&& data.get("canSendMessage"@) == Some(Tree::Bool(true))
            }
            &&& done[4] == (ActionView::DeliverPending { conversation_id, thread_id })
        }),
{
    lemma_all_methods();
    lemma_told_names();
    crate::actions::a_part_of_a_stream_says_what_it_is(
        conversation_id,
        turn_id,
        turn_id,
        "finish"@,
        object(),
        None,
        now,
    );
}

/// A turn that fails is told in the stream of the conversation, with the reason that is given or else
/// that it failed.
pub proof fn the_failure_of_a_turn_is_told(
    streams: StreamsView,
    conversation_id: Seq<char>,
    thread_id: Seq<char>,
    params: Tree,
    now: i64,
    text: Seq<char>,
)
    ensures
        ({
            let (after, done) = shown(streams, conversation_id, thread_id, "error"@, params, now);
            let turn_id = match params.get("turnId"@) {
                Some(Tree::Str(id)) => id,
                _ => ""@,
            };
            &&& after == streams
            &&& done.len() == 1
            &&& is_told(done[0], conversation_id, turn_id, turn_id, "error"@, now)
            &&& params.get_in("error"@, "message"@) == Some(Tree::Str(text)) ==> done[0]->data.get_in(
                "data"@,
                "message"@,
            ) == Some(Tree::Str(text))
            &&& !(params.get_in("error"@, "message"@) matches Some(Tree::Str(_))) ==> done[0]->data.get_in(
                "data"@,
                "message"@,
            ) == Some(Tree::Str("Codex turn failed"@))
        }),
{
    lemma_all_methods();
    let turn_id = or_empty(params.str_at("turnId"@));
    let message = match str_in(params.get_in("error"@, "message"@)) {
        Some(message) => message,
        None => "Codex turn failed"@,
    };
    crate::actions::a_part_of_a_stream_says_what_it_is(
        conversation_id,
        turn_id,
        turn_id,
        "error"@,
        object().put("message"@, Tree::Str(message)),
        None,
        now,
    );
}

/// A thread that becomes idle has its conversation finished, and no other status does anything.
pub proof fn an_idle_thread_finishes_its_conversation(
    streams: StreamsView,
    conversation_id: Seq<char>,
    thread_id: Seq<char>,
    params: Tree,
    now: i64,
    conversation: ConversationView,
)
    ensures
        ({
            let (after, done) = shown(streams, conversation_id, thread_id, "thread/status/changed"@, params, now);
            &&& after == streams
            &&& params.get_in("status"@, "type"@) != Some(Tree::Str("idle"@)) ==> done.len() == 0
            &&& params.get_in("status"@, "type"@) == Some(Tree::Str("idle"@)) ==> {
                &&& done.len() == 1
                &&& done[0] matches ActionView::UpdateConversation { conversation_id: id, update }
                &&& id == conversation_id
                &&& conversation.updated(update) == (ConversationView { status: Some("finished"@), ..conversation })
            }
        }),
{
    lemma_all_methods();
}

/// A part of a message is added to what has come of it, the whole is stored as a message at work, and
/// the part alone is told.
pub proof fn a_part_of_a_message_is_shown(
    streams: StreamsView,
    conversation_id: Seq<char>,
    thread_id: Seq<char>,
    params: Tree,
    now: i64,
    item_id: Seq<char>,
    turn_id: Seq<char>,
    delta: Seq<char>,
)
    requires
        params.get("itemId"@) == Some(Tree::Str(item_id)),
        params.get("turnId"@) == Some(Tree::Str(turn_id)),
        params.get("delta"@) == Some(Tree::Str(delta)),
    ensures
        ({
            let key = (conversation_id, item_id);
            let (after, done) = shown(streams, conversation_id, thread_id, "item/agentMessage/delta"@, params, now);
            let whole = if streams.text.contains_key(key) {
                streams.text[key] + delta
            } else {
                delta
            };
            &&& after.text == streams.text.insert(key, whole)
            &&& after.thinking == streams.thinking && after.output == streams.output
            &&& done.len() == 2
            &&& done[0] matches ActionView::StoreMessage(row) && {
                &&& row.id == item_id && row.msg_id == Some(item_id) && row.conversation_id == conversation_id
                &&& row.message_type == "text"@
                &&& row.content == displayed(Tree::Object(Map::empty().insert("content"@, Tree::Str(whole))))
                &&& row.position == Some("left"@) && row.status == Some("work"@)
                &&& row.created_at == now && !row.hidden
            }
            &&& is_told(done[1], conversation_id, item_id, turn_id, "content"@, now)
            &&& done[1]->data.get_in("data"@, "content"@) == Some(Tree::Str(delta))
            &&& done[1]->data.get("position"@) == Some(Tree::Str("left"@))
            &&& done[1]->data.get("status"@) == Some(Tree::Str("work"@))
        }),
{
    lemma_all_methods();
    assert(Seq::<char>::empty() + delta =~= delta);
    crate::actions::a_part_of_a_stream_says_what_it_is(
        conversation_id,
        item_id,
        turn_id,
        "content"@,
        object().put("content"@, Tree::Str(delta)),
        Some(("left"@, "work"@)),
        now,
    );
}

/// A part of the thinking, of its summary or of its text, is added to what has come of it, the whole is
/// stored under an id of its own as one at work, and the part alone is told.
pub proof fn a_part_of_the_thinking_is_shown(
    streams: StreamsView,
    conversation_id: Seq<char>,
    thread_id: Seq<char>,
    params: Tree,
    now: i64,
    method: Seq<char>,
    item_id: Seq<char>,
    turn_id: Seq<char>,
    delta: Seq<char>,
)
    requires
        method == "item/reasoning/summaryTextDelta"@ || method == "item/reasoning/textDelta"@,
        params.get("itemId"@) == Some(Tree::Str(item_id)),
        params.get("turnId"@) == Some(Tree::Str(turn_id)),
        params.get("delta"@) == Some(Tree::Str(delta)),
    ensures
        ({
            let key = (conversation_id, item_id);
            let (after, done) = shown(streams, conversation_id, thread_id, method, params, now);
            let whole = if streams.thinking.contains_key(key) {
                streams.thinking[key] + delta
            } else {
                delta
            };
            &&& after.thinking == streams.thinking.insert(key, whole)
            &&& after.text == streams.text && after.output == streams.output
            &&& done.len() == 2
            &&& done[0] matches ActionView::StoreMessage(row) && {
                &&& row.id == "thinking-"@ + item_id && row.msg_id == Some(item_id)
                &&& row.conversation_id == conversation_id
                &&& row.message_type == "thinking"@
                &&& row.content == displayed(
                    Tree::Object(
                        Map::empty().insert("content"@, Tree::Str(whole)).insert("status"@, Tree::Str("thinking"@)),
                    ),
                )
                &&& row.position == Some("left"@) && row.status == Some("work"@)
                &&& row.created_at == now && !row.hidden
            }
            &&& is_told(done[1], conversation_id, item_id, turn_id, "thinking"@, now)
            &&& done[1]->data.get_in("data"@, "content"@) == Some(Tree::Str(delta))
            &&& done[1]->data.get_in("data"@, "status"@) == Some(Tree::Str("thinking"@))
        }),
{
    lemma_all_methods();
    lemma_shown_names();
    assert(Seq::<char>::empty() + delta =~= delta);
    crate::actions::a_part_of_a_stream_says_what_it_is(
        conversation_id,
        item_id,
        turn_id,
        "thinking"@,
        thought(delta, "thinking"@),
        None,
        now,
    );
}

/// A part of the output of a command is added to what has come of it, and the whole is stored and told
/// as that of a command which is running.
pub proof fn a_part_of_the_output_is_shown(
    streams: StreamsView,
    conversation_id: Seq<char>,
    thread_id: Seq<char>,
    params: Tree,
    now: i64,
    item_id: Seq<char>,
    turn_id: Seq<char>,
    delta: Seq<char>,
)
    requires
        params.get("itemId"@) == Some(Tree::Str(item_id)),
        params.get("turnId"@) == Some(Tree::Str(turn_id)),
        params.get("delta"@) == Some(Tree::Str(delta)),
    ensures
        ({
            let key = (conversation_id, item_id);
            let (after, done) = shown(
                streams,
                conversation_id,
                thread_id,
                "item/commandExecution/outputDelta"@,
                params,
                now,
            );
            let whole = if streams.output.contains_key(key) {
                streams.output[key] + delta
            } else {
                delta
            };
            &&& after.output == streams.output.insert(key, whole)
            &&& after.text == streams.text && after.thinking == streams.thinking
            &&& done.len() == 2
            &&& is_told(done[1], conversation_id, item_id, turn_id, "tool_call"@, now)
            &&& done[1]->data.get("data"@) matches Some(data) && {
                &&& data.get("call_id"@) == Some(Tree::Str(item_id))
                &&& data.get("name"@) == Some(Tree::Str("shell"@))
                &&& data.get("status"@) == Some(Tree::Str("running"@))
                &&& data.get("output"@) == Some(Tree::Str(whole))
                &&& done[0] matches ActionView::StoreMessage(row)
                &&& row.id == item_id && row.msg_id == Some(item_id) && row.conversation_id == conversation_id
                &&& row.message_type == "tool_call"@
                &&& row.content == displayed(data)
                &&& row.position == Some("left"@) && row.status == Some("work"@)
                &&& row.created_at == now && !row.hidden
            }
        }),
{
    lemma_all_methods();
    lemma_shown_names();
    assert(Seq::<char>::empty() + delta =~= delta);
    let whole = so_far(streams.output, (conversation_id, item_id)) + delta;
    crate::actions::a_part_of_a_stream_says_what_it_is(
        conversation_id,
        item_id,
        turn_id,
        "tool_call"@,
        running_command(item_id, whole),
        None,
        now,
    );
}

/// An item that starts is shown as one that is not complete, and one that is completed as one that is;
/// both are told, with the time that the notification gives or else with now.
pub proof fn an_item_is_shown_as_it_stands(
    streams: StreamsView,
    conversation_id: Seq<char>,
    thread_id: Seq<char>,
    params: Tree,
    now: i64,
    item: Tree,
    turn_id: Seq<char>,
    time: i64,
)
    requires
        params.get("item"@) == Some(item),
        params.get("turnId"@) == Some(Tree::Str(turn_id)),
    ensures
        params.get("startedAtMs"@) == Some(Tree::Int(time)) || !(params.get("startedAtMs"@) matches Some(Tree::Int(_)))
            && time == now ==> shown(streams, conversation_id, thread_id, "item/started"@, params, now) == item_shown(
            streams,
            conversation_id,
            turn_id,
            item,
            time,
            true,
            false,
            now,
        ),
        params.get("completedAtMs"@) == Some(Tree::Int(time)) || !(params.get("completedAtMs"@) matches Some(
            Tree::Int(_),
        )) && time == now ==> shown(streams, conversation_id, thread_id, "item/completed"@, params, now) == item_shown(
            streams,
            conversation_id,
            turn_id,
            item,
            time,
            true,
            true,
            now,
        ),
{
    lemma_all_methods();
}

/// A notification of any other kind, or one that does not say which turn or item it is about, shows
/// nothing.
pub proof fn other_notifications_show_nothing(
    streams: StreamsView,
    conversation_id: Seq<char>,
    thread_id: Seq<char>,
    method: Seq<char>,
    params: Tree,
    now: i64,
)
    requires
        method == "turn/started"@ || method == "turn/completed"@ ==> !(params.get_in("turn"@, "id"@) matches Some(
            Tree::Str(_),
        )),
        method == "item/agentMessage/delta"@ || method == "item/reasoning/summaryTextDelta"@ || method
            == "item/reasoning/textDelta"@ || method == "item/commandExecution/outputDelta"@ ==> !(params.get(
            "itemId"@,
        ) matches Some(Tree::Str(_))),
        method == "item/started"@ || method == "item/completed"@ ==> params.get("item"@) is None,
        method != "thread/status/changed"@,
        method != "error"@,
    ensures
        shown(streams, conversation_id, thread_id, method, params, now) == (streams, Seq::<ActionView>::empty()),
{
}

/// A thread that has started goes to the conversations of its workspaces; any other notification goes
/// to those that show the thread that it names; and one that names none goes nowhere.
pub proof fn a_notification_goes_where_its_thread_is_shown(method: Seq<char>, params: Tree, thread_id: Seq<char>, thread: Tree)
    ensures
        params.get("thread"@) == Some(thread) ==> route("thread/started"@, params) == (RouteView::Started { thread }),
        params.get("thread"@) is None ==> route("thread/started"@, params) == RouteView::Nothing,
        method != "thread/started"@ && params.get("threadId"@) == Some(Tree::Str(thread_id)) ==> route(method, params) == (
        RouteView::Thread { thread_id }),
        method != "thread/started"@ && !(params.get("threadId"@) matches Some(Tree::Str(_))) ==> route(method, params)
            == RouteView::Nothing,
{
}

} // verus!
