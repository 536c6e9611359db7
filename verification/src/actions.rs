//! What the library asks of the world around it: changes to what is stored, and messages.
use vstd::prelude::*;

use crate::json::{object, Json, Tree};
use crate::rows::{
    BindingView, CodexThreadBindingRow, ConversationRowUpdate, MessageRow, MessageView, UpdateView,
};
use crate::wire::{displayed, document, is_readable, is_shallow, keeps, print};

verus! {

/// One thing to be done. The things of a list are done in its order, and one that fails ends it.
#[derive(Debug, PartialEq)]
pub enum Action {
    /// The turn now runs in the conversation.
    SetExternalTurn { conversation_id: String, turn_id: String },
    /// The turn no longer runs in the conversation.
    ClearExternalTurn { conversation_id: String, turn_id: String },
    SetLiveState { conversation_id: String, live_state: String, updated_at: i64 },
    StoreBinding(CodexThreadBindingRow),
    UpdateConversation { conversation_id: String, update: ConversationRowUpdate },
    StoreMessage(MessageRow),
    /// Every client is told.
    Broadcast { name: String, data: Json },
    /// The inputs that wait for the conversation are sent to the thread.
    DeliverPending { conversation_id: String, thread_id: String },
    /// The conversation's sub-agents are counted again.
    CountSubagents { conversation_id: String },
    /// The sub-agents of the binding's thread are linked to its conversation.
    LinkSubagents(CodexThreadBindingRow),
}

pub enum ActionView {
    SetExternalTurn { conversation_id: Seq<char>, turn_id: Seq<char> },
    ClearExternalTurn { conversation_id: Seq<char>, turn_id: Seq<char> },
    SetLiveState { conversation_id: Seq<char>, live_state: Seq<char>, updated_at: i64 },
    StoreBinding(BindingView),
    UpdateConversation { conversation_id: Seq<char>, update: UpdateView },
    StoreMessage(MessageView),
    Broadcast { name: Seq<char>, data: Tree },
    DeliverPending { conversation_id: Seq<char>, thread_id: Seq<char> },
    CountSubagents { conversation_id: Seq<char> },
    LinkSubagents(BindingView),
}

impl View for Action {
    type V = ActionView;

    open spec fn view(&self) -> ActionView {
        match self {
            Action::SetExternalTurn { conversation_id, turn_id } => ActionView::SetExternalTurn {
                conversation_id: conversation_id@,
                turn_id: turn_id@,
            },
            Action::ClearExternalTurn { conversation_id, turn_id } => ActionView::ClearExternalTurn {
                conversation_id: conversation_id@,
                turn_id: turn_id@,
            },
            Action::SetLiveState { conversation_id, live_state, updated_at } => ActionView::SetLiveState {
                conversation_id: conversation_id@,
                live_state: live_state@,
                updated_at: *updated_at,
            },
            Action::StoreBinding(row) => ActionView::StoreBinding(row@),
            Action::UpdateConversation { conversation_id, update } => ActionView::UpdateConversation {
                conversation_id: conversation_id@,
                update: update@,
            },
            Action::StoreMessage(row) => ActionView::StoreMessage(row@),
            Action::Broadcast { name, data } => ActionView::Broadcast { name: name@, data: data@ },
            Action::DeliverPending { conversation_id, thread_id } => ActionView::DeliverPending {
                conversation_id: conversation_id@,
                thread_id: thread_id@,
            },
            Action::CountSubagents { conversation_id } => ActionView::CountSubagents {
                conversation_id: conversation_id@,
            },
            Action::LinkSubagents(row) => ActionView::LinkSubagents(row@),
        }
    }
}

impl ActionView {
    /// A message is stored whose content is read back as this document.
    pub open spec fn stores_content(self, content: Tree) -> bool {
        self matches ActionView::StoreMessage(row) && document(row.content) == content
    }

    /// A message is stored, and what is read back of its content reads like this document.
    pub open spec fn keeps_content(self, content: Tree) -> bool {
        self matches ActionView::StoreMessage(row) && keeps(row.content, content)
    }

    /// A conversation is updated with extra data, and what is read back reads like this document.
    pub open spec fn stores_extra(self, extra: Tree) -> bool {
        self matches ActionView::UpdateConversation { update, .. } && update.stores_extra(extra)
    }
}

impl UpdateView {
    /// The extra data changes, and what is read back reads like this document.
    pub open spec fn stores_extra(self, extra: Tree) -> bool {
        self.extra matches Some(text) && keeps(text, extra)
    }
}

/// What a list of actions asks for.
pub open spec fn actions(list: Seq<Action>) -> Seq<ActionView> {
    list.map_values(|action: Action| action@)
}

pub proof fn lemma_actions_push(list: Seq<Action>, action: Action)
    ensures
        actions(list.push(action)) == actions(list).push(action@),
{
    assert(actions(list.push(action)) =~= actions(list).push(action@));
}

/// A list of actions that is being made.
pub struct ActionList {
    pub list: Vec<Action>,
}

impl View for ActionList {
    type V = Seq<ActionView>;

    open spec fn view(&self) -> Seq<ActionView> {
        actions(self.list@)
    }
}

impl ActionList {
    pub fn new() -> (r: ActionList)
        ensures
            r@ == Seq::<ActionView>::empty(),
    {
        let list: Vec<Action> = Vec::new();
        proof {
            assert(actions(list@) =~= Seq::<ActionView>::empty());
        }
        ActionList { list }
    }

    pub fn push(&mut self, action: Action)
        ensures
            final(self)@ == old(self)@.push(action@),
    {
        proof {
            lemma_actions_push(self.list@, action);
        }
        self.list.push(action);
    }

    /// With one more action.
    pub fn and(self, action: Action) -> (r: ActionList)
        ensures
            r@ == self@.push(action@),
    {
        let mut more = self;
        more.push(action);
        more
    }

    /// With one more action, where it is wanted.
    pub fn and_if(self, wanted: bool, action: Action) -> (r: ActionList)
        ensures
            r@ == if wanted {
                self@.push(action@)
            } else {
                self@
            },
    {
        if wanted {
            self.and(action)
        } else {
            self
        }
    }

    pub fn done(self) -> (r: Vec<Action>)
        ensures
            actions(r@) == self@,
    {
        self.list
    }
}

/// The message that tells of a change in the list of conversations.
pub open spec fn list_changed(conversation_id: Seq<char>, change: Seq<char>) -> ActionView {
    ActionView::Broadcast {
        name: "conversation.listChanged"@,
        data: object().put("conversation_id"@, Tree::Str(conversation_id)).put("action"@, Tree::Str(change)).put(
            "source"@,
            Tree::Str("aionui"@),
        ),
    }
}

pub(crate) fn broadcast_list_changed(conversation_id: &str, change: &str) -> (r: Action)
    ensures
        r@ == list_changed(conversation_id@, change@),
{
    Action::Broadcast {
        name: "conversation.listChanged".to_owned(),
        data: Json::object().put("conversation_id", Json::str(conversation_id)).put(
            "action",
            Json::str(change),
        ).put("source", Json::str("aionui")),
    }
}

/// A part of a conversation's stream, and how it is shown where that is said.
pub open spec fn stream(
    conversation_id: Seq<char>,
    msg_id: Seq<char>,
    turn_id: Seq<char>,
    message_type: Seq<char>,
    data: Tree,
    display: Option<(Seq<char>, Seq<char>)>,
    now: i64,
) -> ActionView {
    let payload = object().put("conversation_id"@, Tree::Str(conversation_id)).put(
        "msg_id"@,
        Tree::Str(msg_id),
    ).put("turn_id"@, Tree::Str(turn_id)).put("type"@, Tree::Str(message_type)).put("data"@, data).put(
        "hidden"@,
        Tree::Bool(false),
    ).put("created_at"@, Tree::Int(now));
    ActionView::Broadcast {
        name: "message.stream"@,
        data: match display {
            Some((position, status)) => payload.put("position"@, Tree::Str(position)).put(
                "status"@,
                Tree::Str(status),
            ),
            None => payload,
        },
    }
}

pub open spec fn display_chars(display: Option<(&str, &str)>) -> Option<(Seq<char>, Seq<char>)> {
    match display {
        Some((position, status)) => Some((position@, status@)),
        None => None,
    }
}

/// A part of a conversation's stream.
pub fn broadcast_stream(
    conversation_id: &str,
    msg_id: &str,
    turn_id: &str,
    message_type: &str,
    data: Json,
    display: Option<(&str, &str)>,
    now: i64,
) -> (r: Action)
    ensures
        r@ == stream(
            conversation_id@,
            msg_id@,
            turn_id@,
            message_type@,
            data@,
            display_chars(display),
            now,
        ),
{
    let payload = Json::object().put("conversation_id", Json::str(conversation_id)).put(
        "msg_id",
        Json::str(msg_id),
    ).put("turn_id", Json::str(turn_id)).put("type", Json::str(message_type)).put("data", data).put(
        "hidden",
        Json::Bool(false),
    ).put("created_at", Json::Int(now));
    Action::Broadcast {
        name: "message.stream".to_owned(),
        data: match display {
            Some((position, status)) => payload.put("position", Json::str(position)).put(
                "status",
                Json::str(status),
            ),
            None => payload,
        },
    }
}

/// A message of a conversation, whose content is the text of a document.
pub open spec fn message(
    conversation_id: Seq<char>,
    id: Seq<char>,
    msg_id: Seq<char>,
    message_type: Seq<char>,
    content: Tree,
    position: Seq<char>,
    status: Seq<char>,
    created_at: i64,
) -> ActionView {
    ActionView::StoreMessage(
        MessageView {
            id,
            conversation_id,
            msg_id: Some(msg_id),
            message_type,
            content: displayed(content),
            position: Some(position),
            status: Some(status),
            hidden: false,
            created_at,
        },
    )
}

/// A message of a conversation, whose content is the text of a document.
pub fn persist_structured(
    conversation_id: &str,
    id: &str,
    msg_id: &str,
    message_type: &str,
    content: &Json,
    position: &str,
    status: &str,
    created_at: i64,
) -> (r: Action)
    ensures
        r@ == message(
            conversation_id@,
            id@,
            msg_id@,
            message_type@,
            content@,
            position@,
            status@,
            created_at,
        ),
        is_readable(content@) ==> r@.stores_content(content@),
        is_shallow(content@) ==> r@.keeps_content(content@),
{
    Action::StoreMessage(
        MessageRow {
            id: id.to_owned(),
            conversation_id: conversation_id.to_owned(),
            msg_id: Some(msg_id.to_owned()),
            message_type: message_type.to_owned(),
            content: print(content),
            position: Some(position.to_owned()),
            status: Some(status.to_owned()),
            hidden: false,
            created_at,
        },
    )
}

pub open spec fn text_message(
    conversation_id: Seq<char>,
    msg_id: Seq<char>,
    text: Seq<char>,
    position: Seq<char>,
    status: Seq<char>,
    created_at: i64,
) -> ActionView {
    message(
        conversation_id,
        msg_id,
        msg_id,
        "text"@,
        object().put("content"@, Tree::Str(text)),
        position,
        status,
        created_at,
    )
}

/// A message of plain text.
pub fn persist_text(
    conversation_id: &str,
    msg_id: &str,
    text: &str,
    position: &str,
    status: &str,
    created_at: i64,
) -> (r: Action)
    ensures
        r@ == text_message(conversation_id@, msg_id@, text@, position@, status@, created_at),
        r@.stores_content(object().put("content"@, Tree::Str(text@))),
        r@.keeps_content(object().put("content"@, Tree::Str(text@))),
{
    proof {
        broadcast use crate::wire::a_document_stays_readable_with_a_member;
        broadcast use crate::wire::a_document_stays_shallow_with_a_member;

    }
    let content = Json::object().put("content", Json::str(text));
    persist_structured(conversation_id, msg_id, msg_id, "text", &content, position, status, created_at)
}

proof fn lemma_stream_names()
    ensures
        "conversation_id"@ != "msg_id"@,
        "conversation_id"@ != "turn_id"@,
        "conversation_id"@ != "type"@,
        "conversation_id"@ != "data"@,
        "conversation_id"@ != "hidden"@,
        "conversation_id"@ != "created_at"@,
        "conversation_id"@ != "position"@,
        "conversation_id"@ != "status"@,
        "msg_id"@ != "turn_id"@,
        "msg_id"@ != "type"@,
        "msg_id"@ != "data"@,
        "msg_id"@ != "hidden"@,
        "msg_id"@ != "created_at"@,
        "msg_id"@ != "position"@,
        "msg_id"@ != "status"@,
        "turn_id"@ != "type"@,
        "turn_id"@ != "data"@,
        "turn_id"@ != "hidden"@,
        "turn_id"@ != "created_at"@,
        "turn_id"@ != "position"@,
        "turn_id"@ != "status"@,
        "type"@ != "data"@,
        "type"@ != "hidden"@,
        "type"@ != "created_at"@,
        "type"@ != "position"@,
        "type"@ != "status"@,
        "data"@ != "hidden"@,
        "data"@ != "created_at"@,
        "data"@ != "position"@,
        "data"@ != "status"@,
        "hidden"@ != "created_at"@,
        "hidden"@ != "position"@,
        "hidden"@ != "status"@,
        "created_at"@ != "position"@,
        "created_at"@ != "status"@,
        "position"@ != "status"@,
{
    reveal_strlit("conversation_id");
    reveal_strlit("msg_id");
    reveal_strlit("turn_id");
    reveal_strlit("type");
    reveal_strlit("data");
    reveal_strlit("hidden");
    reveal_strlit("created_at");
    reveal_strlit("position");
    reveal_strlit("status");
    assert("conversation_id"@.len() != "msg_id"@.len());
    assert("conversation_id"@.len() != "turn_id"@.len());
    assert("conversation_id"@.len() != "type"@.len());
    assert("conversation_id"@.len() != "data"@.len());
    assert("conversation_id"@.len() != "hidden"@.len());
    assert("conversation_id"@.len() != "created_at"@.len());
    assert("conversation_id"@.len() != "position"@.len());
    assert("conversation_id"@.len() != "status"@.len());
    assert("msg_id"@.len() != "turn_id"@.len());
    assert("msg_id"@.len() != "type"@.len());
    assert("msg_id"@.len() != "data"@.len());
    assert("msg_id"@[0] != "hidden"@[0]);
    assert("msg_id"@.len() != "created_at"@.len());
    assert("msg_id"@.len() != "position"@.len());
    assert("msg_id"@[0] != "status"@[0]);
    assert("turn_id"@.len() != "type"@.len());
    assert("turn_id"@.len() != "data"@.len());
    assert("turn_id"@.len() != "hidden"@.len());
    assert("turn_id"@.len() != "created_at"@.len());
    assert("turn_id"@.len() != "position"@.len());
    assert("turn_id"@.len() != "status"@.len());
    assert("type"@[0] != "data"@[0]);
    assert("type"@.len() != "hidden"@.len());
    assert("type"@.len() != "created_at"@.len());
    assert("type"@.len() != "position"@.len());
    assert("type"@.len() != "status"@.len());
    assert("data"@.len() != "hidden"@.len());
    assert("data"@.len() != "created_at"@.len());
    assert("data"@.len() != "position"@.len());
    assert("data"@.len() != "status"@.len());
    assert("hidden"@.len() != "created_at"@.len());
    assert("hidden"@.len() != "position"@.len());
    assert("hidden"@[0] != "status"@[0]);
    assert("created_at"@.len() != "position"@.len());
    assert("created_at"@.len() != "status"@.len());
    assert("position"@.len() != "status"@.len());
}
proof fn lemma_change_names()
    ensures
        "conversation_id"@ != "action"@,
        "conversation_id"@ != "source"@,
        "action"@ != "source"@,
{
    reveal_strlit("conversation_id");
    reveal_strlit("action");
    reveal_strlit("source");
    assert("conversation_id"@.len() != "action"@.len());
    assert("conversation_id"@.len() != "source"@.len());
    assert("action"@[0] != "source"@[0]);
}

/// A part of a stream is told under the name of the stream. It says which conversation, message and
/// turn it belongs to, what it is and what it holds, that it is not hidden, and when it was made; where
/// it stands and how is said where that is given, and only there.
pub proof fn a_part_of_a_stream_says_what_it_is(
    conversation_id: Seq<char>,
    msg_id: Seq<char>,
    turn_id: Seq<char>,
    message_type: Seq<char>,
    content: Tree,
    display: Option<(Seq<char>, Seq<char>)>,
    now: i64,
)
    ensures
        stream(conversation_id, msg_id, turn_id, message_type, content, display, now) matches ActionView::Broadcast {
            name,
            data,
        } && {
            &&& name == "message.stream"@
            &&& data.get("conversation_id"@) == Some(Tree::Str(conversation_id))
            &&& data.get("msg_id"@) == Some(Tree::Str(msg_id))
            &&& data.get("turn_id"@) == Some(Tree::Str(turn_id))
            &&& data.get("type"@) == Some(Tree::Str(message_type))
            &&& data.get("data"@) == Some(content)
            &&& data.get("hidden"@) == Some(Tree::Bool(false))
            &&& data.get("created_at"@) == Some(Tree::Int(now))
            &&& display matches Some((position, status)) ==> data.get("position"@) == Some(Tree::Str(position)) && data.get(
                "status"@,
            ) == Some(Tree::Str(status))
            &&& display is None ==> data.get("position"@) is None && data.get("status"@) is None
        },
{
    lemma_stream_names();
}

/// A change in the list of conversations is told with the conversation that changed and how.
pub proof fn a_change_in_the_list_says_what_changed(conversation_id: Seq<char>, change: Seq<char>)
    ensures
        list_changed(conversation_id, change) matches ActionView::Broadcast { name, data } && {
            &&& name == "conversation.listChanged"@
            &&& data.get("conversation_id"@) == Some(Tree::Str(conversation_id))
            &&& data.get("action"@) == Some(Tree::Str(change))
            &&& data.get("source"@) == Some(Tree::Str("aionui"@))
        },
{
    lemma_change_names();
}

/// A message is stored under its id in its conversation, as it is given; one of plain text goes by the
/// id of the message and holds the text as its content.
pub proof fn a_message_is_stored_as_it_is_given(
    conversation_id: Seq<char>,
    id: Seq<char>,
    msg_id: Seq<char>,
    message_type: Seq<char>,
    content: Tree,
    text: Seq<char>,
    position: Seq<char>,
    status: Seq<char>,
    created_at: i64,
)
    ensures
        message(conversation_id, id, msg_id, message_type, content, position, status, created_at)
            matches ActionView::StoreMessage(row) && {
            &&& row.id == id
            &&& row.conversation_id == conversation_id
            &&& row.msg_id == Some(msg_id)
            &&& row.message_type == message_type
            &&& row.content == displayed(content)
            &&& row.position == Some(position)
            &&& row.status == Some(status)
            &&& !row.hidden
            &&& row.created_at == created_at
        },
        text_message(conversation_id, msg_id, text, position, status, created_at) matches ActionView::StoreMessage(row) && {
            &&& row.id == msg_id
            &&& row.conversation_id == conversation_id
            &&& row.msg_id == Some(msg_id)
            &&& row.message_type == "text"@
            &&& row.content == displayed(Tree::Object(Map::empty().insert("content"@, Tree::Str(text))))
            &&& row.position == Some(position)
            &&& row.status == Some(status)
            &&& !row.hidden
            &&& row.created_at == created_at
        },
{
}

} // verus!
