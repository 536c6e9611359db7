//! The items of a turn, shown as messages of a conversation.
use vstd::prelude::*;

use crate::actions::{
    actions, broadcast_stream, message, persist_structured, persist_text, stream, text_message, Action, ActionList,
    ActionView,
};
use crate::buffers::{Streams, StreamsView};
use crate::json::{object, strings_in, strings_of, trees, Json, Tree};
use crate::text::{all_chars, concat, equals, join_lines, lines, opt_chars, same};
use crate::wire::{displayed, is_shallow};

verus! {

/// The text, or the empty one where there is none.
pub open spec fn or_empty(s: Option<Seq<char>>) -> Seq<char> {
    match s {
        Some(s) => s,
        None => ""@,
    }
}

pub(crate) fn unwrap_or_empty(s: Option<&str>) -> (r: &str)
    ensures
        r@ == or_empty(opt_chars(s)),
{
    match s {
        Some(s) => s,
        None => "",
    }
}

pub(crate) fn is_empty(s: &str) -> (r: bool)
    ensures
        r == (s@ == ""@),
{
    same(s, "")
}

/// The member, or another document where there is none.
pub open spec fn member_or(tree: Tree, key: Seq<char>, default: Tree) -> Tree {
    match tree.get(key) {
        Some(member) => member,
        None => default,
    }
}

fn get_or(json: &Json, key: &str, default: Json) -> (r: Json)
    ensures
        r@ == member_or(json@, key@, default@),
{
    match json.get(key) {
        Some(member) => member.clone(),
        None => default,
    }
}

/// The text that one input of a user's message shows.
pub open spec fn input_text(input: Tree) -> Option<Seq<char>> {
    let kind = input.str_at("type"@);
    if kind == Some("text"@) {
        input.str_at("text"@)
    } else if kind == Some("localImage"@) {
        match input.str_at("path"@) {
            Some(path) => Some("[Image: "@ + path + "]"@),
            None => None,
        }
    } else {
        None
    }
}

fn show_input(input: &Json) -> (r: Option<String>)
    ensures
        match r {
            Some(text) => input_text(input@) == Some(text@),
            None => input_text(input@) is None,
        },
{
    let kind = input.str_at("type");
    if equals(kind, "text") {
        match input.str_at("text") {
            Some(text) => Some(text.to_owned()),
            None => None,
        }
    } else if equals(kind, "localImage") {
        match input.str_at("path") {
            Some(path) => Some(concat(concat("[Image: ", path).as_str(), "]")),
            None => None,
        }
    } else {
        None
    }
}

/// The texts that the inputs of a user's message show.
pub open spec fn input_texts(inputs: Seq<Tree>) -> Seq<Seq<char>>
    decreases inputs.len(),
{
    if inputs.len() == 0 {
        Seq::empty()
    } else {
        match input_text(inputs.last()) {
            Some(text) => input_texts(inputs.drop_last()).push(text),
            None => input_texts(inputs.drop_last()),
        }
    }
}

/// The text of a user's message: a line for each input that shows one.
pub open spec fn text_of_user(item: Tree) -> Seq<char> {
    match item.get("content"@) {
        Some(Tree::Array(inputs)) => lines(input_texts(inputs)),
        _ => ""@,
    }
}

/// The text of a user's message: a line for each input that shows one.
pub fn user_message_text(item: &Json) -> (r: String)
    ensures
        r@ == text_of_user(item@),
{
    let inputs = match item.get("content") {
        Some(content) => match content.as_array() {
            Some(inputs) => inputs,
            None => return "".to_owned(),
        },
        None => return "".to_owned(),
    };
    let ghost all = trees(inputs@);
    let mut texts: Vec<String> = Vec::new();
    let mut i: usize = 0;
    proof {
        assert(all_chars(texts@) =~= input_texts(all.take(0)));
    }
    while i < inputs.len()
        invariant
            i <= inputs@.len(),
            all == trees(inputs@),
            all_chars(texts@) == input_texts(all.take(i as int)),
        decreases inputs@.len() - i,
    {
        let ghost prior = texts@;
        proof {
            assert(all.take(i + 1).drop_last() =~= all.take(i as int));
            assert(all.take(i + 1).last() == inputs@[i as int]@);
        }
        if let Some(text) = show_input(&inputs[i]) {
            texts.push(text);
            proof {
                assert(all_chars(texts@) =~= all_chars(prior).push(text@));
            }
        }
        i = i + 1;
    }
    proof {
        assert(all.take(i as int) =~= all);
    }
    join_lines(&texts)
}

/// The text of a summary: a line for each of its strings.
pub open spec fn text_of_summary(item: Tree) -> Seq<char> {
    match item.get("summary"@) {
        Some(Tree::Array(parts)) => lines(strings_in(parts)),
        _ => ""@,
    }
}

fn summary_text(item: &Json) -> (r: String)
    ensures
        r@ == text_of_summary(item@),
{
    match item.get("summary") {
        Some(summary) => match summary.as_array() {
            Some(parts) => join_lines(&strings_of(parts)),
            None => "".to_owned(),
        },
        None => "".to_owned(),
    }
}

/// How a tool call stands, which may have failed.
pub open spec fn tool_status(item: Tree, completed: bool) -> Seq<char> {
    if !completed {
        "running"@
    } else if item.str_at("status"@) == Some("failed"@) {
        "error"@
    } else {
        "completed"@
    }
}

fn status_of_tool(item: &Json, completed: bool) -> (r: &'static str)
    ensures
        r@ == tool_status(item@, completed),
{
    if !completed {
        "running"
    } else if equals(item.str_at("status"), "failed") {
        "error"
    } else {
        "completed"
    }
}

/// What is shown of a command.
pub open spec fn command_data(item: Tree, id: Seq<char>, completed: bool) -> Tree {
    object().put("call_id"@, Tree::Str(id)).put("name"@, Tree::Str("shell"@)).put(
        "args"@,
        object().put("command"@, member_or(item, "command"@, Tree::Null)).put(
            "cwd"@,
            member_or(item, "cwd"@, Tree::Null),
        ),
    ).put("status"@, Tree::Str(tool_status(item, completed))).put(
        "output"@,
        member_or(item, "aggregatedOutput"@, Tree::Null),
    ).put("description"@, member_or(item, "command"@, Tree::Null))
}

fn show_command(item: &Json, id: &str, completed: bool) -> (r: Json)
    ensures
        r@ == command_data(item@, id@, completed),
{
    let args = Json::object().put("command", get_or(item, "command", Json::Null)).put(
        "cwd",
        get_or(item, "cwd", Json::Null),
    );
    Json::object().put("call_id", Json::str(id)).put("name", Json::str("shell")).put("args", args).put(
        "status",
        Json::str(status_of_tool(item, completed)),
    ).put("output", get_or(item, "aggregatedOutput", Json::Null)).put(
        "description",
        get_or(item, "command", Json::Null),
    )
}

/// What is shown of a change to files.
pub open spec fn patch_data(item: Tree, id: Seq<char>, completed: bool) -> Tree {
    object().put("call_id"@, Tree::Str(id)).put("name"@, Tree::Str("apply_patch"@)).put(
        "args"@,
        member_or(item, "changes"@, Tree::Array(Seq::empty())),
    ).put("status"@, Tree::Str(tool_status(item, completed))).put(
        "description"@,
        Tree::Str("File changes"@),
    )
}

fn empty_array() -> (r: Json)
    ensures
        r@ == Tree::Array(Seq::empty()),
{
    let items: Vec<Json> = Vec::new();
    proof {
        assert(Json::Array(items)@->Array_0 =~= Seq::<Tree>::empty());
    }
    Json::Array(items)
}

fn show_patch(item: &Json, id: &str, completed: bool) -> (r: Json)
    ensures
        r@ == patch_data(item@, id@, completed),
{
    Json::object().put("call_id", Json::str(id)).put("name", Json::str("apply_patch")).put(
        "args",
        get_or(item, "changes", empty_array()),
    ).put("status", Json::str(status_of_tool(item, completed))).put("description", Json::str("File changes"))
}

/// What is shown of a call of an outside tool.
pub open spec fn mcp_data(item: Tree, id: Seq<char>, completed: bool) -> Tree {
    object().put("call_id"@, Tree::Str(id)).put("name"@, member_or(item, "tool"@, Tree::Str("mcp"@))).put(
        "args"@,
        member_or(item, "arguments"@, object()),
    ).put(
        "status"@,
        Tree::Str(
            if completed {
                "completed"@
            } else {
                "running"@
            },
        ),
    ).put("description"@, member_or(item, "server"@, Tree::Null))
}

fn show_mcp(item: &Json, id: &str, completed: bool) -> (r: Json)
    ensures
        r@ == mcp_data(item@, id@, completed),
{
    let status = if completed {
        "completed"
    } else {
        "running"
    };
    Json::object().put("call_id", Json::str(id)).put("name", get_or(item, "tool", Json::str("mcp"))).put(
        "args",
        get_or(item, "arguments", Json::object()),
    ).put("status", Json::str(status)).put("description", get_or(item, "server", Json::Null))
}

/// A list with one more action, where it is wanted.
pub open spec fn pushed_if(list: Seq<ActionView>, wanted: bool, action: ActionView) -> Seq<ActionView> {
    if wanted {
        list.push(action)
    } else {
        list
    }
}

/// What is done for a tool call.
pub open spec fn tool_call(
    conversation_id: Seq<char>,
    turn_id: Seq<char>,
    id: Seq<char>,
    data: Tree,
    created_at: i64,
    broadcast: bool,
    completed: bool,
    now: i64,
) -> Seq<ActionView> {
    pushed_if(
        seq![
            message(
                conversation_id,
                id,
                id,
                "tool_call"@,
                data,
                "left"@,
                if completed {
                    "finish"@
                } else {
                    "work"@
                },
                created_at,
            ),
        ],
        broadcast,
        stream(conversation_id, id, turn_id, "tool_call"@, data, None, now),
    )
}

fn call_tool(
    conversation_id: &str,
    turn_id: &str,
    id: &str,
    data: Json,
    created_at: i64,
    broadcast: bool,
    completed: bool,
    now: i64,
) -> (r: ActionList)
    ensures
        r@ == tool_call(conversation_id@, turn_id@, id@, data@, created_at, broadcast, completed, now),
        is_shallow(data@) ==> r@[0].keeps_content(data@),
{
    let status = if completed {
        "finish"
    } else {
        "work"
    };
    let list = ActionList::new().and(
        persist_structured(conversation_id, id, id, "tool_call", &data, "left", status, created_at),
    );
    list.and_if(broadcast, broadcast_stream(conversation_id, id, turn_id, "tool_call", data, None, now))
}

/// The message that tells of a user's message.
pub open spec fn user_created(conversation_id: Seq<char>, msg_id: Seq<char>, text: Seq<char>, created_at: i64) -> ActionView {
    ActionView::Broadcast {
        name: "message.userCreated"@,
        data: object().put("conversation_id"@, Tree::Str(conversation_id)).put("msg_id"@, Tree::Str(msg_id)).put(
            "content"@,
            Tree::Str(text),
        ).put("position"@, Tree::Str("right"@)).put("status"@, Tree::Str("finish"@)).put(
            "hidden"@,
            Tree::Bool(false),
        ).put("created_at"@, Tree::Int(created_at)),
    }
}

fn broadcast_user_created(conversation_id: &str, msg_id: &str, text: &str, created_at: i64) -> (r: Action)
    ensures
        r@ == user_created(conversation_id@, msg_id@, text@, created_at),
{
    Action::Broadcast {
        name: "message.userCreated".to_owned(),
        data: Json::object().put("conversation_id", Json::str(conversation_id)).put(
            "msg_id",
            Json::str(msg_id),
        ).put("content", Json::str(text)).put("position", Json::str("right")).put("status", Json::str("finish")).put(
            "hidden",
            Json::Bool(false),
        ).put("created_at", Json::Int(created_at)),
    }
}

/// What is shown of thinking.
pub open spec fn thought(content: Seq<char>, status: Seq<char>) -> Tree {
    object().put("content"@, Tree::Str(content)).put("status"@, Tree::Str(status))
}

pub(crate) fn think(content: &str, status: &str) -> (r: Json)
    ensures
        r@ == thought(content@, status@),
{
    Json::object().put("content", Json::str(content)).put("status", Json::str(status))
}

impl StreamsView {
    /// Without what came for an item.
    pub open spec fn without_text(self, key: (Seq<char>, Seq<char>)) -> StreamsView {
        StreamsView { text: self.text.remove(key), ..self }
    }

    pub open spec fn without_thinking(self, key: (Seq<char>, Seq<char>)) -> StreamsView {
        StreamsView { thinking: self.thinking.remove(key), ..self }
    }

    pub open spec fn without_output(self, key: (Seq<char>, Seq<char>)) -> StreamsView {
        StreamsView { output: self.output.remove(key), ..self }
    }
}

/// What is done for an item of a turn, and what has come of the streams then. Items without an id
/// are not shown, nor are messages, thinking and plans before they are complete. A message that
/// came in parts is not told again as a whole.
pub open spec fn item_shown(
    streams: StreamsView,
    conversation_id: Seq<char>,
    turn_id: Seq<char>,
    item: Tree,
    created_at: i64,
    broadcast: bool,
    completed: bool,
    now: i64,
) -> (StreamsView, Seq<ActionView>) {
    let kind = or_empty(item.str_at("type"@));
    let id = or_empty(item.str_at("id"@));
    let key = (conversation_id, id);
    let finished = ("left"@, "finish"@);
    if id == ""@ {
        (streams, Seq::empty())
    } else if kind == "userMessage"@ && completed {
        let msg_id = match item.str_at("clientId"@) {
            Some(client_id) => client_id,
            None => id,
        };
        let text = text_of_user(item);
        (
            streams,
            pushed_if(
                seq![text_message(conversation_id, msg_id, text, "right"@, "finish"@, created_at)],
                broadcast,
                user_created(conversation_id, msg_id, text, created_at),
            ),
        )
    } else if kind == "agentMessage"@ && completed {
        let text = or_empty(item.str_at("text"@));
        (
            streams.without_text(key),
            pushed_if(
                seq![text_message(conversation_id, id, text, "left"@, "finish"@, created_at)],
                broadcast && !streams.text.contains_key(key) && text != ""@,
                stream(
                    conversation_id,
                    id,
                    turn_id,
                    "content"@,
                    object().put("content"@, Tree::Str(text)),
                    Some(finished),
                    now,
                ),
            ),
        )
    } else if kind == "reasoning"@ && completed {
        let text = text_of_summary(item);
        (
            streams.without_thinking(key),
            if text == ""@ {
                Seq::empty()
            } else {
                pushed_if(
                    seq![
                        message(
                            conversation_id,
                            "thinking-"@ + id,
                            id,
                            "thinking"@,
                            thought(text, "done"@),
                            "left"@,
                            "finish"@,
                            created_at,
                        ),
                    ],
                    broadcast,
                    stream(conversation_id, id, turn_id, "thinking"@, thought(""@, "done"@), None, now),
                )
            },
        )
    } else if kind == "plan"@ && completed {
        let text = or_empty(item.str_at("text"@));
        (
            streams,
            if text == ""@ {
                Seq::empty()
            } else {
                pushed_if(
                    seq![text_message(conversation_id, id, text, "left"@, "finish"@, created_at)],
                    broadcast,
                    stream(
                        conversation_id,
                        id,
                        turn_id,
                        "content"@,
                        object().put("content"@, Tree::Str(text)),
                        Some(finished),
                        now,
                    ),
                )
            },
        )
    } else if kind == "commandExecution"@ {
        (
            streams.without_output(key),
            tool_call(
                conversation_id,
                turn_id,
                id,
                command_data(item, id, completed),
                created_at,
                broadcast,
                completed,
                now,
            ),
        )
    } else if kind == "fileChange"@ {
        (
            streams,
            tool_call(
                conversation_id,
                turn_id,
                id,
                patch_data(item, id, completed),
                created_at,
                broadcast,
                completed,
                now,
            ),
        )
    } else if kind == "mcpToolCall"@ {
        (
            streams,
            tool_call(
                conversation_id,
                turn_id,
                id,
                mcp_data(item, id, completed),
                created_at,
                broadcast,
                completed,
                now,
            ),
        )
    } else {
        (streams, Seq::empty())
    }
}

proof fn lemma_kinds_differ()
    ensures
        "reasoning"@ != "plan"@,
        "reasoning"@ != "commandExecution"@,
        "reasoning"@ != "fileChange"@,
        "reasoning"@ != "mcpToolCall"@,
        "plan"@ != "commandExecution"@,
        "plan"@ != "fileChange"@,
        "plan"@ != "mcpToolCall"@,
{
    reveal_strlit("reasoning");
    reveal_strlit("plan");
    reveal_strlit("commandExecution");
    reveal_strlit("fileChange");
    reveal_strlit("mcpToolCall");
    assert("reasoning"@.len() == 9 && "plan"@.len() == 4);
    assert("commandExecution"@.len() > 9 && "fileChange"@.len() > 9 && "mcpToolCall"@.len() > 9);
}

/// The document that is stored for an item, where one is.
pub open spec fn item_content(item: Tree, completed: bool) -> Option<Tree> {
    let kind = or_empty(item.str_at("type"@));
    let id = or_empty(item.str_at("id"@));
    let text = or_empty(item.str_at("text"@));
    if id == ""@ {
        None
    } else if kind == "userMessage"@ && completed {
        Some(object().put("content"@, Tree::Str(text_of_user(item))))
    } else if kind == "agentMessage"@ && completed {
        Some(object().put("content"@, Tree::Str(text)))
    } else if kind == "reasoning"@ && completed && text_of_summary(item) != ""@ {
        Some(thought(text_of_summary(item), "done"@))
    } else if kind == "plan"@ && completed && text != ""@ {
        Some(object().put("content"@, Tree::Str(text)))
    } else if kind == "commandExecution"@ {
        Some(command_data(item, id, completed))
    } else if kind == "fileChange"@ {
        Some(patch_data(item, id, completed))
    } else if kind == "mcpToolCall"@ {
        Some(mcp_data(item, id, completed))
    } else {
        None
    }
}

/// What is done for an item of a turn. What is read back of what is stored for it reads like what
/// is shown of it, where its arrays and objects do not lie too deep in each other.
pub fn project_item(
    streams: &mut Streams,
    conversation_id: &str,
    turn_id: &str,
    item: &Json,
    created_at: i64,
    broadcast: bool,
    completed: bool,
    now: i64,
) -> (r: Vec<Action>)
    ensures
        (final(streams)@, actions(r@)) == item_shown(
            old(streams)@,
            conversation_id@,
            turn_id@,
            item@,
            created_at,
            broadcast,
            completed,
            now,
        ),
        item_content(item@, completed) is None ==> actions(r@).len() == 0,
        item_content(item@, completed) matches Some(content) ==> is_shallow(content) ==> actions(
            r@,
        )[0].keeps_content(content),
{
    proof {
        lemma_kinds_differ();
    }
    let kind = unwrap_or_empty(item.str_at("type"));
    let id = unwrap_or_empty(item.str_at("id"));
    let list = ActionList::new();
    if is_empty(id) {
        return list.done();
    }
    if same(kind, "userMessage") && completed {
        let msg_id = match item.str_at("clientId") {
            Some(client_id) => client_id,
            None => id,
        };
        let text = user_message_text(item);
        return list.and(
            persist_text(conversation_id, msg_id, text.as_str(), "right", "finish", created_at),
        ).and_if(
            broadcast,
            broadcast_user_created(conversation_id, msg_id, text.as_str(), created_at),
        ).done();
    }
    if same(kind, "agentMessage") && completed {
        let text = unwrap_or_empty(item.str_at("text"));
        let had_stream = streams.text.remove(conversation_id, id);
        return list.and(persist_text(conversation_id, id, text, "left", "finish", created_at)).and_if(
            broadcast && !had_stream && !is_empty(text),
            broadcast_stream(
                conversation_id,
                id,
                turn_id,
                "content",
                Json::object().put("content", Json::str(text)),
                Some(("left", "finish")),
                now,
            ),
        ).done();
    }
    if same(kind, "reasoning") && completed {
        let text = summary_text(item);
        let _ = streams.thinking.remove(conversation_id, id);
        if is_empty(text.as_str()) {
            return list.done();
        }
        return list.and(
            persist_structured(
                conversation_id,
                concat("thinking-", id).as_str(),
                id,
                "thinking",
                &think(text.as_str(), "done"),
                "left",
                "finish",
                created_at,
            ),
        ).and_if(
            broadcast,
            broadcast_stream(conversation_id, id, turn_id, "thinking", think("", "done"), None, now),
        ).done();
    }
    if same(kind, "plan") && completed {
        let text = unwrap_or_empty(item.str_at("text"));
        if is_empty(text) {
            return list.done();
        }
        return list.and(persist_text(conversation_id, id, text, "left", "finish", created_at)).and_if(
            broadcast,
            broadcast_stream(
                conversation_id,
                id,
                turn_id,
                "content",
                Json::object().put("content", Json::str(text)),
                Some(("left", "finish")),
                now,
            ),
        ).done();
    }
    if same(kind, "commandExecution") {
        let _ = streams.output.remove(conversation_id, id);
        let data = show_command(item, id, completed);
        return call_tool(conversation_id, turn_id, id, data, created_at, broadcast, completed, now).done();
    }
    if same(kind, "fileChange") {
        let data = show_patch(item, id, completed);
        return call_tool(conversation_id, turn_id, id, data, created_at, broadcast, completed, now).done();
    }
    if same(kind, "mcpToolCall") {
        let data = show_mcp(item, id, completed);
        return call_tool(conversation_id, turn_id, id, data, created_at, broadcast, completed, now).done();
    }
    list.done()
}

proof fn lemma_all_kinds_differ()
    ensures
        "userMessage"@ != "agentMessage"@,
        "userMessage"@ != "reasoning"@,
        "userMessage"@ != "plan"@,
        "userMessage"@ != "commandExecution"@,
        "userMessage"@ != "fileChange"@,
        "userMessage"@ != "mcpToolCall"@,
        "agentMessage"@ != "reasoning"@,
        "agentMessage"@ != "plan"@,
        "agentMessage"@ != "commandExecution"@,
        "agentMessage"@ != "fileChange"@,
        "agentMessage"@ != "mcpToolCall"@,
        "reasoning"@ != "plan"@,
        "reasoning"@ != "commandExecution"@,
        "reasoning"@ != "fileChange"@,
        "reasoning"@ != "mcpToolCall"@,
        "plan"@ != "commandExecution"@,
        "plan"@ != "fileChange"@,
        "plan"@ != "mcpToolCall"@,
        "commandExecution"@ != "fileChange"@,
        "commandExecution"@ != "mcpToolCall"@,
        "fileChange"@ != "mcpToolCall"@,
{
    reveal_strlit("userMessage");
    reveal_strlit("agentMessage");
    reveal_strlit("reasoning");
    reveal_strlit("plan");
    reveal_strlit("commandExecution");
    reveal_strlit("fileChange");
    reveal_strlit("mcpToolCall");
    assert("userMessage"@.len() != "agentMessage"@.len());
    assert("userMessage"@.len() != "reasoning"@.len());
    assert("userMessage"@.len() != "plan"@.len());
    assert("userMessage"@.len() != "commandExecution"@.len());
    assert("userMessage"@.len() != "fileChange"@.len());
    assert("userMessage"@[0] != "mcpToolCall"@[0]);
    assert("agentMessage"@.len() != "reasoning"@.len());
    assert("agentMessage"@.len() != "plan"@.len());
    assert("agentMessage"@.len() != "commandExecution"@.len());
    assert("agentMessage"@.len() != "fileChange"@.len());
    assert("agentMessage"@.len() != "mcpToolCall"@.len());
    assert("reasoning"@.len() != "plan"@.len());
    assert("reasoning"@.len() != "commandExecution"@.len());
    assert("reasoning"@.len() != "fileChange"@.len());
    assert("reasoning"@.len() != "mcpToolCall"@.len());
    assert("plan"@.len() != "commandExecution"@.len());
    assert("plan"@.len() != "fileChange"@.len());
    assert("plan"@.len() != "mcpToolCall"@.len());
    assert("commandExecution"@.len() != "fileChange"@.len());
    assert("commandExecution"@.len() != "mcpToolCall"@.len());
    assert("fileChange"@.len() != "mcpToolCall"@.len());
}
proof fn lemma_tool_names()
    ensures
        "call_id"@ != "name"@,
        "call_id"@ != "args"@,
        "call_id"@ != "status"@,
        "call_id"@ != "output"@,
        "call_id"@ != "description"@,
        "call_id"@ != "command"@,
        "call_id"@ != "cwd"@,
        "call_id"@ != "content"@,
        "name"@ != "args"@,
        "name"@ != "status"@,
        "name"@ != "output"@,
        "name"@ != "description"@,
        "name"@ != "command"@,
        "name"@ != "cwd"@,
        "name"@ != "content"@,
        "args"@ != "status"@,
        "args"@ != "output"@,
        "args"@ != "description"@,
        "args"@ != "command"@,
        "args"@ != "cwd"@,
        "args"@ != "content"@,
        "status"@ != "output"@,
        "status"@ != "description"@,
        "status"@ != "command"@,
        "status"@ != "cwd"@,
        "status"@ != "content"@,
        "output"@ != "description"@,
        "output"@ != "command"@,
        "output"@ != "cwd"@,
        "output"@ != "content"@,
        "description"@ != "command"@,
        "description"@ != "cwd"@,
        "description"@ != "content"@,
        "command"@ != "cwd"@,
        "command"@ != "content"@,
        "cwd"@ != "content"@,
{
    reveal_strlit("call_id");
    reveal_strlit("name");
    reveal_strlit("args");
    reveal_strlit("status");
    reveal_strlit("output");
    reveal_strlit("description");
    reveal_strlit("command");
    reveal_strlit("cwd");
    reveal_strlit("content");
    assert("call_id"@.len() != "name"@.len());
    assert("call_id"@.len() != "args"@.len());
    assert("call_id"@.len() != "status"@.len());
    assert("call_id"@.len() != "output"@.len());
    assert("call_id"@.len() != "description"@.len());
    assert("call_id"@[1] != "command"@[1]);
    assert("call_id"@.len() != "cwd"@.len());
    assert("call_id"@[1] != "content"@[1]);
    assert("name"@[0] != "args"@[0]);
    assert("name"@.len() != "status"@.len());
    assert("name"@.len() != "output"@.len());
    assert("name"@.len() != "description"@.len());
    assert("name"@.len() != "command"@.len());
    assert("name"@.len() != "cwd"@.len());
    assert("name"@.len() != "content"@.len());
    assert("args"@.len() != "status"@.len());
    assert("args"@.len() != "output"@.len());
    assert("args"@.len() != "description"@.len());
    assert("args"@.len() != "command"@.len());
    assert("args"@.len() != "cwd"@.len());
    assert("args"@.len() != "content"@.len());
    assert("status"@[0] != "output"@[0]);
    assert("status"@.len() != "description"@.len());
    assert("status"@.len() != "command"@.len());
    assert("status"@.len() != "cwd"@.len());
    assert("status"@.len() != "content"@.len());
    assert("output"@.len() != "description"@.len());
    assert("output"@.len() != "command"@.len());
    assert("output"@.len() != "cwd"@.len());
    assert("output"@.len() != "content"@.len());
    assert("description"@.len() != "command"@.len());
    assert("description"@.len() != "cwd"@.len());
    assert("description"@.len() != "content"@.len());
    assert("command"@.len() != "cwd"@.len());
    assert("command"@[2] != "content"@[2]);
    assert("cwd"@.len() != "content"@.len());
}
proof fn lemma_tool_statuses()
    ensures
        "running"@ != "error"@,
        "running"@ != "completed"@,
        "error"@ != "completed"@,
{
    reveal_strlit("running");
    reveal_strlit("error");
    reveal_strlit("completed");
    assert("running"@.len() != "error"@.len());
    assert("running"@.len() != "completed"@.len());
    assert("error"@.len() != "completed"@.len());
}

/// What is shown of a tool call is stored as a message of its conversation, as one that is at work or
/// finished; and, where that is wanted, the same document is told as a part of the stream, and nothing
/// else is done.
pub open spec fn is_told_as_tool(
    done: Seq<ActionView>,
    conversation_id: Seq<char>,
    turn_id: Seq<char>,
    id: Seq<char>,
    data: Tree,
    created_at: i64,
    broadcast: bool,
    completed: bool,
    now: i64,
) -> bool {
    &&& done.len() == if broadcast {
        2int
    } else {
        1
    }
    &&& done[0] matches ActionView::StoreMessage(row) && {
        &&& row.id == id
        &&& row.msg_id == Some(id)
        &&& row.conversation_id == conversation_id
        &&& row.message_type == "tool_call"@
        &&& row.content == displayed(data)
        &&& row.position == Some("left"@)
        &&& completed ==> row.status == Some("finish"@)
        &&& !completed ==> row.status == Some("work"@)
        &&& row.created_at == created_at
        &&& !row.hidden
    }
    &&& broadcast ==> {
        &&& done[1] matches ActionView::Broadcast { name, data: told }
        &&& name == "message.stream"@
        &&& told.get("type"@) == Some(Tree::Str("tool_call"@))
        &&& told.get("data"@) == Some(data)
        &&& told.get("conversation_id"@) == Some(Tree::Str(conversation_id))
        &&& told.get("msg_id"@) == Some(Tree::Str(id))
        &&& told.get("turn_id"@) == Some(Tree::Str(turn_id))
        &&& told.get("created_at"@) == Some(Tree::Int(now))
    }
}

/// The member is what the item has under this name, or null where it has nothing there.
pub open spec fn is_member_or_null(member: Option<Tree>, item: Tree, key: Seq<char>) -> bool {
    match item.get(key) {
        Some(held) => member == Some(held),
        None => member == Some(Tree::Null),
    }
}

/// A command is shown with what it runs and where, and with its output. It is running until it is
/// complete; then it is an error exactly when the item says that it failed, and else completed. What had
/// come of its output in parts is no longer kept.
pub proof fn a_command_is_shown_with_its_outcome(
    streams: StreamsView,
    conversation_id: Seq<char>,
    turn_id: Seq<char>,
    item: Tree,
    id: Seq<char>,
    created_at: i64,
    broadcast: bool,
    completed: bool,
    now: i64,
)
    requires
        item.get("type"@) == Some(Tree::Str("commandExecution"@)),
        item.get("id"@) == Some(Tree::Str(id)),
        id.len() > 0,
    ensures
        ({
            let (after, done) = item_shown(
                streams,
                conversation_id,
                turn_id,
                item,
                created_at,
                broadcast,
                completed,
                now,
            );
            &&& item_content(item, completed) matches Some(data)
            &&& data.get("call_id"@) == Some(Tree::Str(id))
            &&& data.get("name"@) == Some(Tree::Str("shell"@))
            &&& is_member_or_null(data.get_in("args"@, "command"@), item, "command"@)
            &&& is_member_or_null(data.get_in("args"@, "cwd"@), item, "cwd"@)
            &&& is_member_or_null(data.get("output"@), item, "aggregatedOutput"@)
            &&& is_member_or_null(data.get("description"@), item, "command"@)
            &&& !completed ==> data.get("status"@) == Some(Tree::Str("running"@))
            &&& completed && item.get("status"@) == Some(Tree::Str("failed"@)) ==> data.get("status"@) == Some(
                Tree::Str("error"@),
            )
            &&& completed && item.get("status"@) != Some(Tree::Str("failed"@)) ==> data.get("status"@) == Some(
                Tree::Str("completed"@),
            )
            &&& is_told_as_tool(done, conversation_id, turn_id, id, data, created_at, broadcast, completed, now)
            &&& after.text == streams.text && after.thinking == streams.thinking
            &&& after.output == streams.output.remove((conversation_id, id))
        }),
{
    reveal_strlit("");
    lemma_all_kinds_differ();
    lemma_tool_names();
    crate::actions::a_part_of_a_stream_says_what_it_is(
        conversation_id,
        id,
        turn_id,
        "tool_call"@,
        item_content(item, completed)->0,
        None,
        now,
    );
}

/// A change to files is shown with the changes. It is running until it is complete; then it is an error
/// exactly when the item says that it failed, and else completed.
pub proof fn a_change_to_files_is_shown_with_its_outcome(
    streams: StreamsView,
    conversation_id: Seq<char>,
    turn_id: Seq<char>,
    item: Tree,
    id: Seq<char>,
    created_at: i64,
    broadcast: bool,
    completed: bool,
    now: i64,
)
    requires
        item.get("type"@) == Some(Tree::Str("fileChange"@)),
        item.get("id"@) == Some(Tree::Str(id)),
        id.len() > 0,
    ensures
        ({
            let (after, done) = item_shown(
                streams,
                conversation_id,
                turn_id,
                item,
                created_at,
                broadcast,
                completed,
                now,
            );
            &&& item_content(item, completed) matches Some(data)
            &&& data.get("call_id"@) == Some(Tree::Str(id))
            &&& data.get("name"@) == Some(Tree::Str("apply_patch"@))
            &&& item.get("changes"@) matches Some(changes) ==> data.get("args"@) == Some(changes)
            &&& item.get("changes"@) is None ==> data.get("args"@) == Some(Tree::Array(Seq::empty()))
            &&& data.get("description"@) == Some(Tree::Str("File changes"@))
            &&& data.get("output"@) is None
            &&& !completed ==> data.get("status"@) == Some(Tree::Str("running"@))
            &&& completed && item.get("status"@) == Some(Tree::Str("failed"@)) ==> data.get("status"@) == Some(
                Tree::Str("error"@),
            )
            &&& completed && item.get("status"@) != Some(Tree::Str("failed"@)) ==> data.get("status"@) == Some(
                Tree::Str("completed"@),
            )
            &&& is_told_as_tool(done, conversation_id, turn_id, id, data, created_at, broadcast, completed, now)
            &&& after == streams
        }),
{
    reveal_strlit("");
    lemma_all_kinds_differ();
    lemma_tool_names();
    crate::actions::a_part_of_a_stream_says_what_it_is(
        conversation_id,
        id,
        turn_id,
        "tool_call"@,
        item_content(item, completed)->0,
        None,
        now,
    );
}

/// A call of an outside tool is shown with the tool, what it was called with and the server that has
/// it. It is running until it is complete, and then completed.
pub proof fn a_call_of_an_outside_tool_is_shown(
    streams: StreamsView,
    conversation_id: Seq<char>,
    turn_id: Seq<char>,
    item: Tree,
    id: Seq<char>,
    created_at: i64,
    broadcast: bool,
    completed: bool,
    now: i64,
)
    requires
        item.get("type"@) == Some(Tree::Str("mcpToolCall"@)),
        item.get("id"@) == Some(Tree::Str(id)),
        id.len() > 0,
    ensures
        ({
            let (after, done) = item_shown(
                streams,
                conversation_id,
                turn_id,
                item,
                created_at,
                broadcast,
                completed,
                now,
            );
            &&& item_content(item, completed) matches Some(data)
            &&& data.get("call_id"@) == Some(Tree::Str(id))
            &&& item.get("tool"@) matches Some(tool) ==> data.get("name"@) == Some(tool)
            &&& item.get("tool"@) is None ==> data.get("name"@) == Some(Tree::Str("mcp"@))
            &&& item.get("arguments"@) matches Some(arguments) ==> data.get("args"@) == Some(arguments)
            &&& item.get("arguments"@) is None ==> data.get("args"@) == Some(Tree::Object(Map::empty()))
            &&& is_member_or_null(data.get("description"@), item, "server"@)
            &&& data.get("output"@) is None
            &&& !completed ==> data.get("status"@) == Some(Tree::Str("running"@))
            &&& completed ==> data.get("status"@) == Some(Tree::Str("completed"@))
            &&& is_told_as_tool(done, conversation_id, turn_id, id, data, created_at, broadcast, completed, now)
            &&& after == streams
        }),
{
    reveal_strlit("");
    lemma_all_kinds_differ();
    lemma_tool_names();
    crate::actions::a_part_of_a_stream_says_what_it_is(
        conversation_id,
        id,
        turn_id,
        "tool_call"@,
        item_content(item, completed)->0,
        None,
        now,
    );
}

/// The document that holds a text as its content.
pub open spec fn holding(text: Seq<char>) -> Tree {
    Tree::Object(Map::empty().insert("content"@, Tree::Str(text)))
}

/// A finished message with this text is stored first, at this side of its conversation.
pub open spec fn is_stored_as_text(
    done: Seq<ActionView>,
    conversation_id: Seq<char>,
    id: Seq<char>,
    text: Seq<char>,
    position: Seq<char>,
    created_at: i64,
) -> bool {
    done.len() > 0 && (done[0] matches ActionView::StoreMessage(row) && {
        &&& row.id == id
        &&& row.msg_id == Some(id)
        &&& row.conversation_id == conversation_id
        &&& row.message_type == "text"@
        &&& row.content == displayed(holding(text))
        &&& row.position == Some(position)
        &&& row.status == Some("finish"@)
        &&& row.created_at == created_at
        &&& !row.hidden
    })
}

/// A part of the stream with this content, of a message that is finished, is told next.
pub open spec fn is_told_as_text(
    done: Seq<ActionView>,
    conversation_id: Seq<char>,
    turn_id: Seq<char>,
    id: Seq<char>,
    text: Seq<char>,
    now: i64,
) -> bool {
    done.len() == 2 && (done[1] matches ActionView::Broadcast { name, data } && {
        &&& name == "message.stream"@
        &&& data.get("type"@) == Some(Tree::Str("content"@))
        &&& data.get("data"@) == Some(holding(text))
        &&& data.get("conversation_id"@) == Some(Tree::Str(conversation_id))
        &&& data.get("msg_id"@) == Some(Tree::Str(id))
        &&& data.get("turn_id"@) == Some(Tree::Str(turn_id))
        &&& data.get("position"@) == Some(Tree::Str("left"@))
        &&& data.get("status"@) == Some(Tree::Str("finish"@))
        &&& data.get("created_at"@) == Some(Tree::Int(now))
    })
}

/// A message of the agent that is complete is stored with its text, at the left. Its text is told where
/// that is wanted, unless it is empty or has been told in parts; and what came in parts is no longer
/// kept.
pub proof fn an_answer_of_the_agent_is_stored_and_told_once(
    streams: StreamsView,
    conversation_id: Seq<char>,
    turn_id: Seq<char>,
    item: Tree,
    id: Seq<char>,
    created_at: i64,
    broadcast: bool,
    now: i64,
    text: Seq<char>,
)
    requires
        item.get("type"@) == Some(Tree::Str("agentMessage"@)),
        item.get("id"@) == Some(Tree::Str(id)),
        id.len() > 0,
        item.get("text"@) == Some(Tree::Str(text)) || !(item.get("text"@) matches Some(Tree::Str(_))) && text.len() == 0,
    ensures
        ({
            let (after, done) = item_shown(streams, conversation_id, turn_id, item, created_at, broadcast, true, now);
            &&& is_stored_as_text(done, conversation_id, id, text, "left"@, created_at)
            &&& broadcast && text.len() > 0 && !streams.text.contains_key((conversation_id, id)) ==> is_told_as_text(
                done,
                conversation_id,
                turn_id,
                id,
                text,
                now,
            )
            &&& !broadcast || text.len() == 0 || streams.text.contains_key((conversation_id, id)) ==> done.len() == 1
            &&& after.text == streams.text.remove((conversation_id, id))
            &&& after.thinking == streams.thinking && after.output == streams.output
        }),
{
    reveal_strlit("");
    lemma_all_kinds_differ();
    crate::actions::a_part_of_a_stream_says_what_it_is(
        conversation_id,
        id,
        turn_id,
        "content"@,
        holding(text),
        Some(("left"@, "finish"@)),
        now,
    );
    if text.len() == 0 {
        assert(text =~= ""@);
    }
}

/// A plan that is complete is stored with its text, at the left, and told where that is wanted; one
/// without text is not shown.
pub proof fn a_plan_is_stored_and_told(
    streams: StreamsView,
    conversation_id: Seq<char>,
    turn_id: Seq<char>,
    item: Tree,
    id: Seq<char>,
    created_at: i64,
    broadcast: bool,
    now: i64,
    text: Seq<char>,
)
    requires
        item.get("type"@) == Some(Tree::Str("plan"@)),
        item.get("id"@) == Some(Tree::Str(id)),
        id.len() > 0,
        item.get("text"@) == Some(Tree::Str(text)) || !(item.get("text"@) matches Some(Tree::Str(_))) && text.len() == 0,
    ensures
        ({
            let (after, done) = item_shown(streams, conversation_id, turn_id, item, created_at, broadcast, true, now);
            &&& after == streams
            &&& text.len() == 0 ==> done.len() == 0
            &&& text.len() > 0 ==> is_stored_as_text(done, conversation_id, id, text, "left"@, created_at)
            &&& text.len() > 0 && broadcast ==> is_told_as_text(done, conversation_id, turn_id, id, text, now)
            &&& text.len() > 0 && !broadcast ==> done.len() == 1
        }),
{
    reveal_strlit("");
    lemma_all_kinds_differ();
    crate::actions::a_part_of_a_stream_says_what_it_is(
        conversation_id,
        id,
        turn_id,
        "content"@,
        holding(text),
        Some(("left"@, "finish"@)),
        now,
    );
    if text.len() == 0 {
        assert(text =~= ""@);
    }
}
proof fn lemma_user_names()
    ensures
        "conversation_id"@ != "msg_id"@,
        "conversation_id"@ != "content"@,
        "conversation_id"@ != "position"@,
        "conversation_id"@ != "status"@,
        "conversation_id"@ != "hidden"@,
        "conversation_id"@ != "created_at"@,
        "msg_id"@ != "content"@,
        "msg_id"@ != "position"@,
        "msg_id"@ != "status"@,
        "msg_id"@ != "hidden"@,
        "msg_id"@ != "created_at"@,
        "content"@ != "position"@,
        "content"@ != "status"@,
        "content"@ != "hidden"@,
        "content"@ != "created_at"@,
        "position"@ != "status"@,
        "position"@ != "hidden"@,
        "position"@ != "created_at"@,
        "status"@ != "hidden"@,
        "status"@ != "created_at"@,
        "hidden"@ != "created_at"@,
{
    reveal_strlit("conversation_id");
    reveal_strlit("msg_id");
    reveal_strlit("content");
    reveal_strlit("position");
    reveal_strlit("status");
    reveal_strlit("hidden");
    reveal_strlit("created_at");
    assert("conversation_id"@.len() != "msg_id"@.len());
    assert("conversation_id"@.len() != "content"@.len());
    assert("conversation_id"@.len() != "position"@.len());
    assert("conversation_id"@.len() != "status"@.len());
    assert("conversation_id"@.len() != "hidden"@.len());
    assert("conversation_id"@.len() != "created_at"@.len());
    assert("msg_id"@.len() != "content"@.len());
    assert("msg_id"@.len() != "position"@.len());
    assert("msg_id"@[0] != "status"@[0]);
    assert("msg_id"@[0] != "hidden"@[0]);
    assert("msg_id"@.len() != "created_at"@.len());
    assert("content"@.len() != "position"@.len());
    assert("content"@.len() != "status"@.len());
    assert("content"@.len() != "hidden"@.len());
    assert("content"@.len() != "created_at"@.len());
    assert("position"@.len() != "status"@.len());
    assert("position"@.len() != "hidden"@.len());
    assert("position"@.len() != "created_at"@.len());
    assert("status"@[0] != "hidden"@[0]);
    assert("status"@.len() != "created_at"@.len());
    assert("hidden"@.len() != "created_at"@.len());
}

/// A message of the user is stored at the right, under the id that the client gave it or else the id of
/// the item, and told with the same text where that is wanted.
pub proof fn a_message_of_the_user_is_stored_and_told(
    streams: StreamsView,
    conversation_id: Seq<char>,
    turn_id: Seq<char>,
    item: Tree,
    id: Seq<char>,
    created_at: i64,
    broadcast: bool,
    now: i64,
)
    requires
        item.get("type"@) == Some(Tree::Str("userMessage"@)),
        item.get("id"@) == Some(Tree::Str(id)),
        id.len() > 0,
    ensures
        ({
            let (after, done) = item_shown(streams, conversation_id, turn_id, item, created_at, broadcast, true, now);
            let msg_id = match item.get("clientId"@) {
                Some(Tree::Str(client)) => client,
                _ => id,
            };
            let text = text_of_user(item);
            &&& after == streams
            &&& is_stored_as_text(done, conversation_id, msg_id, text, "right"@, created_at)
            &&& !broadcast ==> done.len() == 1
            &&& broadcast ==> done.len() == 2 && (done[1] matches ActionView::Broadcast { name, data } && {
                &&& name == "message.userCreated"@
                &&& data.get("conversation_id"@) == Some(Tree::Str(conversation_id))
                &&& data.get("msg_id"@) == Some(Tree::Str(msg_id))
                &&& data.get("content"@) == Some(Tree::Str(text))
                &&& data.get("position"@) == Some(Tree::Str("right"@))
                &&& data.get("status"@) == Some(Tree::Str("finish"@))
                &&& data.get("hidden"@) == Some(Tree::Bool(false))
                &&& data.get("created_at"@) == Some(Tree::Int(created_at))
            })
        }),
{
    reveal_strlit("");
    lemma_all_kinds_differ();
    lemma_user_names();
}

/// Thinking that is done is stored with the lines of its summary, under an id of its own, and that it is
/// done is told where that is wanted; without a summary it is not shown. What came of it in parts is no
/// longer kept.
pub proof fn thinking_is_stored_when_it_is_done(
    streams: StreamsView,
    conversation_id: Seq<char>,
    turn_id: Seq<char>,
    item: Tree,
    id: Seq<char>,
    created_at: i64,
    broadcast: bool,
    now: i64,
)
    requires
        item.get("type"@) == Some(Tree::Str("reasoning"@)),
        item.get("id"@) == Some(Tree::Str(id)),
        id.len() > 0,
    ensures
        ({
            let (after, done) = item_shown(streams, conversation_id, turn_id, item, created_at, broadcast, true, now);
            let text = text_of_summary(item);
            &&& after.thinking == streams.thinking.remove((conversation_id, id))
            &&& after.text == streams.text && after.output == streams.output
            &&& text.len() == 0 ==> done.len() == 0
            &&& text.len() > 0 ==> done.len() > 0 && (done[0] matches ActionView::StoreMessage(row) && {
                &&& row.id == "thinking-"@ + id
                &&& row.msg_id == Some(id)
                &&& row.conversation_id == conversation_id
                &&& row.message_type == "thinking"@
                &&& row.content == displayed(thought(text, "done"@))
                &&& row.position == Some("left"@)
                &&& row.status == Some("finish"@)
                &&& row.created_at == created_at
            })
            &&& thought(text, "done"@).get("content"@) == Some(Tree::Str(text))
            &&& thought(text, "done"@).get("status"@) == Some(Tree::Str("done"@))
            &&& text.len() > 0 && !broadcast ==> done.len() == 1
            &&& text.len() > 0 && broadcast ==> done.len() == 2 && (done[1] matches ActionView::Broadcast { name, data } && {
                &&& name == "message.stream"@
                &&& data.get("type"@) == Some(Tree::Str("thinking"@))
                &&& data.get_in("data"@, "status"@) == Some(Tree::Str("done"@))
                &&& data.get_in("data"@, "content"@) == Some(Tree::Str(""@))
                &&& data.get("conversation_id"@) == Some(Tree::Str(conversation_id))
                &&& data.get("msg_id"@) == Some(Tree::Str(id))
                &&& data.get("turn_id"@) == Some(Tree::Str(turn_id))
            })
        }),
{
    reveal_strlit("");
    lemma_all_kinds_differ();
    lemma_user_names();
    let text = text_of_summary(item);
    if text.len() == 0 {
        assert(text =~= ""@);
    }
    crate::actions::a_part_of_a_stream_says_what_it_is(
        conversation_id,
        id,
        turn_id,
        "thinking"@,
        thought(""@, "done"@),
        None,
        now,
    );
}

/// An item without an id, or of a kind that is not known, is not shown; nor is a message, thinking or a
/// plan that is not complete.
pub proof fn other_items_are_not_shown(
    streams: StreamsView,
    conversation_id: Seq<char>,
    turn_id: Seq<char>,
    item: Tree,
    created_at: i64,
    broadcast: bool,
    completed: bool,
    now: i64,
)
    requires
        ({
            let kind = item.get("type"@);
            ||| !(item.get("id"@) matches Some(Tree::Str(_)))
            ||| item.get("id"@) == Some(Tree::Str(Seq::empty()))
            ||| kind != Some(Tree::Str("commandExecution"@)) && kind != Some(Tree::Str("fileChange"@)) && kind != Some(
                Tree::Str("mcpToolCall"@),
            ) && (!completed || kind != Some(Tree::Str("userMessage"@)) && kind != Some(Tree::Str("agentMessage"@))
                && kind != Some(Tree::Str("reasoning"@)) && kind != Some(Tree::Str("plan"@)))
        }),
    ensures
        item_shown(streams, conversation_id, turn_id, item, created_at, broadcast, completed, now) == (
            streams,
            Seq::<ActionView>::empty(),
        ),
{
    reveal_strlit("");
    assert(""@ =~= Seq::<char>::empty());
    reveal_strlit("commandExecution");
    reveal_strlit("fileChange");
    reveal_strlit("mcpToolCall");
    reveal_strlit("userMessage");
    reveal_strlit("agentMessage");
    reveal_strlit("reasoning");
    reveal_strlit("plan");
    assert(""@.len() != "commandExecution"@.len() && ""@.len() != "fileChange"@.len());
    assert(""@.len() != "mcpToolCall"@.len() && ""@.len() != "userMessage"@.len());
    assert(""@.len() != "agentMessage"@.len() && ""@.len() != "reasoning"@.len() && ""@.len() != "plan"@.len());
}

/// The input shows a text: it is one, or an image that is named by its path.
pub open spec fn shows(input: Tree) -> bool {
    ||| input.get("type"@) == Some(Tree::Str("text"@)) && (input.get("text"@) matches Some(Tree::Str(_)))
    ||| input.get("type"@) == Some(Tree::Str("localImage"@)) && (input.get("path"@) matches Some(Tree::Str(_)))
}

proof fn lemma_some_show(inputs: Seq<Tree>)
    ensures
        input_texts(inputs).len() > 0 <==> exists|i: int| 0 <= i < inputs.len() && shows(#[trigger] inputs[i]),
    decreases inputs.len(),
{
    reveal_strlit("text");
    reveal_strlit("localImage");
    assert("text"@.len() != "localImage"@.len());
    if inputs.len() > 0 {
        let front = inputs.drop_last();
        lemma_some_show(front);
        if input_texts(inputs).len() > 0 {
            if input_text(inputs.last()) is Some {
                assert(shows(inputs[inputs.len() - 1]));
            } else {
                let i = choose|i: int| 0 <= i < front.len() && shows(#[trigger] front[i]);
                assert(shows(inputs[i]));
            }
        }
        if exists|i: int| 0 <= i < inputs.len() && shows(#[trigger] inputs[i]) {
            let i = choose|i: int| 0 <= i < inputs.len() && shows(#[trigger] inputs[i]);
            if i < front.len() {
                assert(shows(front[i]));
            }
        }
    }
}

/// The text of a message of the user grows by a line with each input that shows one: a text shows
/// itself, and an image its path; other inputs show nothing.
pub proof fn a_message_has_a_line_for_each_input(item: Tree, more: Tree, inputs: Seq<Tree>, input: Tree, text: Seq<char>)
    requires
        item.get("content"@) == Some(Tree::Array(inputs)),
        more.get("content"@) == Some(Tree::Array(inputs.push(input))),
        input.get("type"@) == Some(Tree::Str("text"@)) ==> (input.get("text"@) matches Some(Tree::Str(said)) ==> text
            == said),
        input.get("type"@) == Some(Tree::Str("localImage"@)) ==> (input.get("path"@) matches Some(Tree::Str(path))
            ==> text == "[Image: "@ + path + "]"@),
    ensures
        !shows(input) ==> text_of_user(more) == text_of_user(item),
        shows(input) && (exists|i: int| 0 <= i < inputs.len() && shows(#[trigger] inputs[i])) ==> text_of_user(more)
            == text_of_user(item).push('\n') + text,
        shows(input) && !(exists|i: int| 0 <= i < inputs.len() && shows(#[trigger] inputs[i])) ==> text_of_user(more) == text,
        inputs.len() == 0 ==> text_of_user(item).len() == 0,
{
    reveal_strlit("text");
    reveal_strlit("localImage");
    assert("text"@.len() != "localImage"@.len());
    assert(inputs.push(input).drop_last() =~= inputs);
    assert(inputs.push(input).last() == input);
    lemma_some_show(inputs);
    let texts = input_texts(inputs);
    crate::text::lines_are_joined(texts, text);
}

/// The text of a summary grows by a line with each string in it; anything else in it shows nothing.
pub proof fn a_summary_has_a_line_for_each_string(item: Tree, more: Tree, parts: Seq<Tree>, part: Tree)
    requires
        item.get("summary"@) == Some(Tree::Array(parts)),
        more.get("summary"@) == Some(Tree::Array(parts.push(part))),
    ensures
        !(part is Str) ==> text_of_summary(more) == text_of_summary(item),
        part matches Tree::Str(text) ==> text_of_summary(more) == if strings_in(parts).len() == 0 {
            text
        } else {
            text_of_summary(item).push('\n') + text
        },
        strings_in(parts).len() > 0 <==> exists|i: int| 0 <= i < parts.len() && #[trigger] parts[i] is Str,
{
    assert(parts.push(part).drop_last() =~= parts);
    assert(parts.push(part).last() == part);
    if part is Str {
        crate::text::lines_are_joined(strings_in(parts), part->Str_0);
    }
    lemma_some_strings(parts);
}

proof fn lemma_some_strings(parts: Seq<Tree>)
    ensures
        strings_in(parts).len() > 0 <==> exists|i: int| 0 <= i < parts.len() && #[trigger] parts[i] is Str,
    decreases parts.len(),
{
    if parts.len() > 0 {
        let front = parts.drop_last();
        lemma_some_strings(front);
        if strings_in(parts).len() > 0 {
            if parts.last() is Str {
                assert(parts[parts.len() - 1] is Str);
            } else {
                let i = choose|i: int| 0 <= i < front.len() && #[trigger] front[i] is Str;
                assert(parts[i] is Str);
            }
        }
        if exists|i: int| 0 <= i < parts.len() && #[trigger] parts[i] is Str {
            let i = choose|i: int| 0 <= i < parts.len() && #[trigger] parts[i] is Str;
            if i < front.len() {
                assert(front[i] is Str);
            }
        }
    }
}

} // verus!
