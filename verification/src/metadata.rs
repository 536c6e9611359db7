//! What a conversation keeps of what its thread says of itself.
use vstd::prelude::*;

use crate::actions::{actions, broadcast_list_changed, list_changed, Action, ActionList, ActionView};
use crate::json::{bool_in, Json, Tree};
use crate::rows::{
    BindingView, CodexThreadBindingRow, ConversationRow, ConversationRowUpdate, ConversationView, UpdateView,
};
use crate::sync::{add_family, family, opt_actions, readable_extra};
use crate::text::{as_deref, opt_chars, same};
use crate::thread::{
    display_title, metadata_of, name_of_source, source_name, thread_display_title, thread_metadata, CodexThreadMetadata,
    MetadataView, DEFAULT_SUBAGENT_TITLE, DEFAULT_TITLE,
};
use crate::wire::{displayed, document, is_shallow, print, reads_like};

verus! {

/// With a string as the member named `key`, or without that member.
pub open spec fn with_string(tree: Tree, key: Seq<char>, value: Option<Seq<char>>) -> Tree {
    match value {
        Some(value) => tree.put(key, Tree::Str(value)),
        None => tree.without(key),
    }
}

/// With a string as the member named `key`, or without that member.
pub fn set_optional_string(target: Json, key: &str, value: Option<&str>) -> (r: Json)
    requires
        value is Some ==> target@.takes_members(),
    ensures
        r@ == with_string(target@, key@, opt_chars(value)),
{
    match value {
        Some(value) => target.put(key, Json::str(value)),
        None => target.without(key),
    }
}

/// What a conversation keeps of its thread: the source, the role and the rest of the metadata. A
/// depth, or whether the thread takes input, is kept where the thread no longer says it.
#[verifier::opaque]
pub open spec fn described(
    extra: Tree,
    source: Seq<char>,
    metadata: MetadataView,
    parent_conversation_id: Option<Seq<char>>,
    auto_title: bool,
) -> Tree {
    let named = extra.put("codex_source"@, Tree::Str(source)).put("codex_thread_role"@, Tree::Str(metadata.role));
    let placed = with_string(
        with_string(named, "codex_parent_thread_id"@, metadata.parent_thread_id),
        "codex_parent_conversation_id"@,
        parent_conversation_id,
    );
    let agent = with_string(
        with_string(
            with_string(
                with_string(placed, "codex_subagent_kind"@, metadata.kind),
                "codex_agent_path"@,
                metadata.agent_path,
            ),
            "codex_agent_nickname"@,
            metadata.agent_nickname,
        ),
        "codex_agent_role"@,
        metadata.agent_role,
    );
    let deep = match metadata.depth {
        Some(depth) => agent.put("codex_agent_depth"@, Tree::Int(depth)),
        None => agent,
    };
    let open = match metadata.can_accept_direct_input {
        Some(b) => deep.put("codex_can_accept_direct_input"@, Tree::Bool(b)),
        None => deep,
    };
    if auto_title {
        open.put("codex_auto_title"@, Tree::Bool(true))
    } else {
        open
    }
}

fn describe(
    extra: Json,
    source: &str,
    metadata: &CodexThreadMetadata,
    parent_conversation_id: Option<&str>,
    auto_title: bool,
) -> (r: Json)
    requires
        extra@.takes_members(),
    ensures
        r@ == described(extra@, source@, metadata@, opt_chars(parent_conversation_id), auto_title),
        is_shallow(extra@) ==> is_shallow(r@),
{
    proof {
        broadcast use
            crate::wire::a_document_stays_shallow_with_a_member,
            crate::wire::a_document_stays_shallow_without_a_member,
        ;

        reveal(described);
    }
    let named = extra.put("codex_source", Json::str(source)).put(
        "codex_thread_role",
        Json::str(metadata.role.as_str()),
    );
    let placed = set_optional_string(
        set_optional_string(named, "codex_parent_thread_id", as_deref(&metadata.parent_thread_id)),
        "codex_parent_conversation_id",
        parent_conversation_id,
    );
    let kind = set_optional_string(placed, "codex_subagent_kind", as_deref(&metadata.kind));
    let path = set_optional_string(kind, "codex_agent_path", as_deref(&metadata.agent_path));
    let nickname = set_optional_string(path, "codex_agent_nickname", as_deref(&metadata.agent_nickname));
    let agent = set_optional_string(nickname, "codex_agent_role", as_deref(&metadata.agent_role));
    let deep = match metadata.depth {
        Some(depth) => agent.put("codex_agent_depth", Json::Int(depth)),
        None => agent,
    };
    let open = match metadata.can_accept_direct_input {
        Some(b) => deep.put("codex_can_accept_direct_input", Json::Bool(b)),
        None => deep,
    };
    if auto_title {
        open.put("codex_auto_title", Json::Bool(true))
    } else {
        open
    }
}

/// The names under which a conversation keeps what its thread says of itself all differ.
proof fn lemma_names_differ()
    ensures
        "codex_source"@ != "codex_thread_role"@,
        "codex_source"@ != "codex_parent_thread_id"@,
        "codex_source"@ != "codex_parent_conversation_id"@,
        "codex_source"@ != "codex_subagent_kind"@,
        "codex_source"@ != "codex_agent_path"@,
        "codex_source"@ != "codex_agent_nickname"@,
        "codex_source"@ != "codex_agent_role"@,
        "codex_source"@ != "codex_agent_depth"@,
        "codex_source"@ != "codex_can_accept_direct_input"@,
        "codex_source"@ != "codex_auto_title"@,
        "codex_thread_role"@ != "codex_parent_thread_id"@,
        "codex_thread_role"@ != "codex_parent_conversation_id"@,
        "codex_thread_role"@ != "codex_subagent_kind"@,
        "codex_thread_role"@ != "codex_agent_path"@,
        "codex_thread_role"@ != "codex_agent_nickname"@,
        "codex_thread_role"@ != "codex_agent_role"@,
        "codex_thread_role"@ != "codex_agent_depth"@,
        "codex_thread_role"@ != "codex_can_accept_direct_input"@,
        "codex_thread_role"@ != "codex_auto_title"@,
        "codex_parent_thread_id"@ != "codex_parent_conversation_id"@,
        "codex_parent_thread_id"@ != "codex_subagent_kind"@,
        "codex_parent_thread_id"@ != "codex_agent_path"@,
        "codex_parent_thread_id"@ != "codex_agent_nickname"@,
        "codex_parent_thread_id"@ != "codex_agent_role"@,
        "codex_parent_thread_id"@ != "codex_agent_depth"@,
        "codex_parent_thread_id"@ != "codex_can_accept_direct_input"@,
        "codex_parent_thread_id"@ != "codex_auto_title"@,
        "codex_parent_conversation_id"@ != "codex_subagent_kind"@,
        "codex_parent_conversation_id"@ != "codex_agent_path"@,
        "codex_parent_conversation_id"@ != "codex_agent_nickname"@,
        "codex_parent_conversation_id"@ != "codex_agent_role"@,
        "codex_parent_conversation_id"@ != "codex_agent_depth"@,
        "codex_parent_conversation_id"@ != "codex_can_accept_direct_input"@,
        "codex_parent_conversation_id"@ != "codex_auto_title"@,
        "codex_subagent_kind"@ != "codex_agent_path"@,
        "codex_subagent_kind"@ != "codex_agent_nickname"@,
        "codex_subagent_kind"@ != "codex_agent_role"@,
        "codex_subagent_kind"@ != "codex_agent_depth"@,
        "codex_subagent_kind"@ != "codex_can_accept_direct_input"@,
        "codex_subagent_kind"@ != "codex_auto_title"@,
        "codex_agent_path"@ != "codex_agent_nickname"@,
        "codex_agent_path"@ != "codex_agent_role"@,
        "codex_agent_path"@ != "codex_agent_depth"@,
        "codex_agent_path"@ != "codex_can_accept_direct_input"@,
        "codex_agent_path"@ != "codex_auto_title"@,
        "codex_agent_nickname"@ != "codex_agent_role"@,
        "codex_agent_nickname"@ != "codex_agent_depth"@,
        "codex_agent_nickname"@ != "codex_can_accept_direct_input"@,
        "codex_agent_nickname"@ != "codex_auto_title"@,
        "codex_agent_role"@ != "codex_agent_depth"@,
        "codex_agent_role"@ != "codex_can_accept_direct_input"@,
        "codex_agent_role"@ != "codex_auto_title"@,
        "codex_agent_depth"@ != "codex_can_accept_direct_input"@,
        "codex_agent_depth"@ != "codex_auto_title"@,
        "codex_can_accept_direct_input"@ != "codex_auto_title"@,
{
    reveal_strlit("codex_source");
    reveal_strlit("codex_thread_role");
    reveal_strlit("codex_parent_thread_id");
    reveal_strlit("codex_parent_conversation_id");
    reveal_strlit("codex_subagent_kind");
    reveal_strlit("codex_agent_path");
    reveal_strlit("codex_agent_nickname");
    reveal_strlit("codex_agent_role");
    reveal_strlit("codex_agent_depth");
    reveal_strlit("codex_can_accept_direct_input");
    reveal_strlit("codex_auto_title");
    assert("codex_source"@.len() != "codex_thread_role"@.len());
    assert("codex_source"@.len() != "codex_parent_thread_id"@.len());
    assert("codex_source"@.len() != "codex_parent_conversation_id"@.len());
    assert("codex_source"@.len() != "codex_subagent_kind"@.len());
    assert("codex_source"@.len() != "codex_agent_path"@.len());
    assert("codex_source"@.len() != "codex_agent_nickname"@.len());
    assert("codex_source"@.len() != "codex_agent_role"@.len());
    assert("codex_source"@.len() != "codex_agent_depth"@.len());
    assert("codex_source"@.len() != "codex_can_accept_direct_input"@.len());
    assert("codex_source"@.len() != "codex_auto_title"@.len());
    assert("codex_thread_role"@.len() != "codex_parent_thread_id"@.len());
    assert("codex_thread_role"@.len() != "codex_parent_conversation_id"@.len());
    assert("codex_thread_role"@.len() != "codex_subagent_kind"@.len());
    assert("codex_thread_role"@.len() != "codex_agent_path"@.len());
    assert("codex_thread_role"@.len() != "codex_agent_nickname"@.len());
    assert("codex_thread_role"@.len() != "codex_agent_role"@.len());
    assert("codex_thread_role"@[6] != "codex_agent_depth"@[6]);
    assert("codex_thread_role"@.len() != "codex_can_accept_direct_input"@.len());
    assert("codex_thread_role"@.len() != "codex_auto_title"@.len());
    assert("codex_parent_thread_id"@.len() != "codex_parent_conversation_id"@.len());
    assert("codex_parent_thread_id"@.len() != "codex_subagent_kind"@.len());
    assert("codex_parent_thread_id"@.len() != "codex_agent_path"@.len());
    assert("codex_parent_thread_id"@.len() != "codex_agent_nickname"@.len());
    assert("codex_parent_thread_id"@.len() != "codex_agent_role"@.len());
    assert("codex_parent_thread_id"@.len() != "codex_agent_depth"@.len());
    assert("codex_parent_thread_id"@.len() != "codex_can_accept_direct_input"@.len());
    assert("codex_parent_thread_id"@.len() != "codex_auto_title"@.len());
    assert("codex_parent_conversation_id"@.len() != "codex_subagent_kind"@.len());
    assert("codex_parent_conversation_id"@.len() != "codex_agent_path"@.len());
    assert("codex_parent_conversation_id"@.len() != "codex_agent_nickname"@.len());
    assert("codex_parent_conversation_id"@.len() != "codex_agent_role"@.len());
    assert("codex_parent_conversation_id"@.len() != "codex_agent_depth"@.len());
    assert("codex_parent_conversation_id"@.len() != "codex_can_accept_direct_input"@.len());
    assert("codex_parent_conversation_id"@.len() != "codex_auto_title"@.len());
    assert("codex_subagent_kind"@.len() != "codex_agent_path"@.len());
    assert("codex_subagent_kind"@.len() != "codex_agent_nickname"@.len());
    assert("codex_subagent_kind"@.len() != "codex_agent_role"@.len());
    assert("codex_subagent_kind"@.len() != "codex_agent_depth"@.len());
    assert("codex_subagent_kind"@.len() != "codex_can_accept_direct_input"@.len());
    assert("codex_subagent_kind"@.len() != "codex_auto_title"@.len());
    assert("codex_agent_path"@.len() != "codex_agent_nickname"@.len());
    assert("codex_agent_path"@[12] != "codex_agent_role"@[12]);
    assert("codex_agent_path"@.len() != "codex_agent_depth"@.len());
    assert("codex_agent_path"@.len() != "codex_can_accept_direct_input"@.len());
    assert("codex_agent_path"@[7] != "codex_auto_title"@[7]);
    assert("codex_agent_nickname"@.len() != "codex_agent_role"@.len());
    assert("codex_agent_nickname"@.len() != "codex_agent_depth"@.len());
    assert("codex_agent_nickname"@.len() != "codex_can_accept_direct_input"@.len());
    assert("codex_agent_nickname"@.len() != "codex_auto_title"@.len());
    assert("codex_agent_role"@.len() != "codex_agent_depth"@.len());
    assert("codex_agent_role"@.len() != "codex_can_accept_direct_input"@.len());
    assert("codex_agent_role"@[7] != "codex_auto_title"@[7]);
    assert("codex_agent_depth"@.len() != "codex_can_accept_direct_input"@.len());
    assert("codex_agent_depth"@.len() != "codex_auto_title"@.len());
    assert("codex_can_accept_direct_input"@.len() != "codex_auto_title"@.len());
}

/// The member named `key` is another than this string, or there where none is wanted.
pub open spec fn string_differs(tree: Tree, key: Seq<char>, value: Option<Seq<char>>) -> bool {
    match value {
        Some(value) => tree.get(key) != Some(Tree::Str(value)),
        None => tree.get(key) is Some,
    }
}

fn is_other_string(json: &Json, key: &str, value: Option<&str>) -> (r: bool)
    ensures
        r == string_differs(json@, key@, opt_chars(value)),
{
    match (json.get(key), value) {
        (Some(member), Some(value)) => match member.as_str() {
            Some(s) => !same(s, value),
            None => true,
        },
        (Some(_), None) => true,
        (None, Some(_)) => true,
        (None, None) => false,
    }
}

fn is_other_int(json: &Json, key: &str, value: i64) -> (r: bool)
    ensures
        r == (json@.get(key@) != Some(Tree::Int(value))),
{
    match json.get(key) {
        Some(member) => match member.as_i64() {
            Some(i) => i != value,
            None => true,
        },
        None => true,
    }
}

fn is_other_bool(json: &Json, key: &str, value: bool) -> (r: bool)
    ensures
        r == (json@.get(key@) != Some(Tree::Bool(value))),
{
    match json.get(key) {
        Some(member) => match member.as_bool() {
            Some(b) => b != value,
            None => true,
        },
        None => true,
    }
}

/// Some member of what the conversation keeps of its thread is another than before.
spec fn some_member_differs(
    extra: Tree,
    source: Seq<char>,
    metadata: MetadataView,
    parent_conversation_id: Option<Seq<char>>,
    auto_title: bool,
) -> bool {
    ||| !(extra is Object)
    ||| string_differs(extra, "codex_source"@, Some(source))
    ||| string_differs(extra, "codex_thread_role"@, Some(metadata.role))
    ||| string_differs(extra, "codex_parent_thread_id"@, metadata.parent_thread_id)
    ||| string_differs(extra, "codex_parent_conversation_id"@, parent_conversation_id)
    ||| string_differs(extra, "codex_subagent_kind"@, metadata.kind)
    ||| string_differs(extra, "codex_agent_path"@, metadata.agent_path)
    ||| string_differs(extra, "codex_agent_nickname"@, metadata.agent_nickname)
    ||| string_differs(extra, "codex_agent_role"@, metadata.agent_role)
    ||| (metadata.depth matches Some(depth) && extra.get("codex_agent_depth"@) != Some(Tree::Int(depth)))
    ||| (metadata.can_accept_direct_input matches Some(b) && extra.get("codex_can_accept_direct_input"@) != Some(
        Tree::Bool(b),
    ))
    ||| (auto_title && extra.get("codex_auto_title"@) != Some(Tree::Bool(true)))
}

/// What was taken in is there, and what says whether the title follows the thread is as it was where
/// the title does not.
proof fn lemma_described(
    extra: Tree,
    source: Seq<char>,
    metadata: MetadataView,
    parent_conversation_id: Option<Seq<char>>,
    auto_title: bool,
)
    requires
        extra.takes_members(),
    ensures
        ({
            let next = described(extra, source, metadata, parent_conversation_id, auto_title);
            &&& next is Object
            &&& !some_member_differs(next, source, metadata, parent_conversation_id, auto_title)
            &&& !auto_title ==> next.get("codex_auto_title"@) == extra.get("codex_auto_title"@)
        }),
{
    reveal(described);
    lemma_names_differ();
    let next = described(extra, source, metadata, parent_conversation_id, auto_title);
    assert(next is Object);
    assert(!string_differs(next, "codex_source"@, Some(source)));
    assert(!string_differs(next, "codex_thread_role"@, Some(metadata.role)));
    assert(!string_differs(next, "codex_parent_thread_id"@, metadata.parent_thread_id));
    assert(!string_differs(next, "codex_parent_conversation_id"@, parent_conversation_id));
    assert(!string_differs(next, "codex_subagent_kind"@, metadata.kind));
    assert(!string_differs(next, "codex_agent_path"@, metadata.agent_path));
    assert(!string_differs(next, "codex_agent_nickname"@, metadata.agent_nickname));
    assert(!string_differs(next, "codex_agent_role"@, metadata.agent_role));
}

proof fn lemma_differs(
    extra: Tree,
    source: Seq<char>,
    metadata: MetadataView,
    parent_conversation_id: Option<Seq<char>>,
    auto_title: bool,
)
    requires
        extra.takes_members(),
    ensures
        (described(extra, source, metadata, parent_conversation_id, auto_title) != extra) == some_member_differs(
            extra,
            source,
            metadata,
            parent_conversation_id,
            auto_title,
        ),
{
    let next = described(extra, source, metadata, parent_conversation_id, auto_title);
    lemma_described(extra, source, metadata, parent_conversation_id, auto_title);
    if extra is Object && !some_member_differs(extra, source, metadata, parent_conversation_id, auto_title) {
        reveal(described);
        assert(next->Object_0 =~= extra->Object_0);
    }
}

fn is_described_anew(
    extra: &Json,
    source: &str,
    metadata: &CodexThreadMetadata,
    parent_conversation_id: Option<&str>,
    auto_title: bool,
) -> (r: bool)
    requires
        extra@.takes_members(),
    ensures
        r == (described(extra@, source@, metadata@, opt_chars(parent_conversation_id), auto_title) != extra@),
{
    proof {
        lemma_differs(extra@, source@, metadata@, opt_chars(parent_conversation_id), auto_title);
    }
    let is_object = match extra {
        Json::Object(_) => true,
        _ => false,
    };
    let depth_differs = match metadata.depth {
        Some(depth) => is_other_int(extra, "codex_agent_depth", depth),
        None => false,
    };
    let input_differs = match metadata.can_accept_direct_input {
        Some(b) => is_other_bool(extra, "codex_can_accept_direct_input", b),
        None => false,
    };
    !is_object || is_other_string(extra, "codex_source", Some(source)) || is_other_string(
        extra,
        "codex_thread_role",
        Some(metadata.role.as_str()),
    ) || is_other_string(extra, "codex_parent_thread_id", as_deref(&metadata.parent_thread_id)) || is_other_string(
        extra,
        "codex_parent_conversation_id",
        parent_conversation_id,
    ) || is_other_string(extra, "codex_subagent_kind", as_deref(&metadata.kind)) || is_other_string(
        extra,
        "codex_agent_path",
        as_deref(&metadata.agent_path),
    ) || is_other_string(extra, "codex_agent_nickname", as_deref(&metadata.agent_nickname)) || is_other_string(
        extra,
        "codex_agent_role",
        as_deref(&metadata.agent_role),
    ) || depth_differs || input_differs || (auto_title && is_other_bool(extra, "codex_auto_title", true))
}

/// The conversation's title follows the thread: it is said to, or it is one that was given for want
/// of another.
pub open spec fn follows_title(extra: Tree, name: Seq<char>) -> bool {
    match bool_in(extra.get("codex_auto_title"@)) {
        Some(b) => b,
        None => name == DEFAULT_TITLE@ || name == DEFAULT_SUBAGENT_TITLE@,
    }
}

fn does_follow_title(extra: &Json, name: &str) -> (r: bool)
    ensures
        r == follows_title(extra@, name@),
{
    let said: Option<bool> = match extra.get("codex_auto_title") {
        Some(member) => member.as_bool(),
        None => None,
    };
    match said {
        Some(b) => b,
        None => same(name, DEFAULT_TITLE) || same(name, DEFAULT_SUBAGENT_TITLE),
    }
}

/// What a conversation keeps of its thread, after the thread has been read again.
pub open spec fn next_extra(extra: Tree, name: Seq<char>, thread: Tree, parent_conversation_id: Option<Seq<char>>) -> Tree {
    described(
        extra,
        name_of_source(thread.get("source"@)),
        metadata_of(thread),
        parent_conversation_id,
        follows_title(extra, name),
    )
}

/// The name of a conversation, after the thread has been read again.
pub open spec fn next_name(extra: Tree, name: Seq<char>, thread: Tree) -> Seq<char> {
    if follows_title(extra, name) {
        display_title(thread, metadata_of(thread))
    } else {
        name
    }
}

/// The binding is stored again where its source is no longer the thread's.
pub open spec fn source_synced(binding: BindingView, thread: Tree, now: i64) -> Seq<ActionView> {
    let source = name_of_source(thread.get("source"@));
    if source != binding.source {
        seq![ActionView::StoreBinding(BindingView { source, updated_at: now, ..binding })]
    } else {
        Seq::empty()
    }
}

/// The conversation is updated, and that is told, where its name or its extra data change.
pub open spec fn description_synced(
    extra: Tree,
    conversation: ConversationView,
    thread: Tree,
    parent_conversation_id: Option<Seq<char>>,
) -> Seq<ActionView> {
    let next = next_extra(extra, conversation.name, thread, parent_conversation_id);
    let name = next_name(extra, conversation.name, thread);
    if next != extra || name != conversation.name {
        seq![
            ActionView::UpdateConversation {
                conversation_id: conversation.id,
                update: UpdateView {
                    name: if name != conversation.name {
                        Some(name)
                    } else {
                        None
                    },
                    extra: Some(displayed(next)),
                    status: None,
                    updated_at: None,
                },
            },
            list_changed(conversation.id, "updated"@),
        ]
    } else {
        Seq::empty()
    }
}

/// What is done for a conversation whose thread has been read again.
pub open spec fn metadata_synced(
    extra: Tree,
    conversation: ConversationView,
    binding: BindingView,
    thread: Tree,
    parent_conversation_id: Option<Seq<char>>,
    now: i64,
) -> Seq<ActionView> {
    source_synced(binding, thread, now) + description_synced(
        extra,
        conversation,
        thread,
        parent_conversation_id,
    ) + family(metadata_of(thread).role, binding, parent_conversation_id)
}

/// What is done for a conversation whose thread has been read again, and whose extra data is given.
pub fn sync_metadata(
    extra: Json,
    conversation: &ConversationRow,
    binding: &CodexThreadBindingRow,
    thread: &Json,
    parent_conversation_id: Option<&str>,
    now: i64,
) -> (r: Vec<Action>)
    requires
        extra@.takes_members(),
    ensures
        actions(r@) == metadata_synced(
            extra@,
            conversation@,
            binding@,
            thread@,
            opt_chars(parent_conversation_id),
            now,
        ),
        is_shallow(extra@) && description_synced(
            extra@,
            conversation@,
            thread@,
            opt_chars(parent_conversation_id),
        ).len() > 0 ==> actions(r@)[source_synced(binding@, thread@, now).len() as int].stores_extra(
            next_extra(extra@, conversation@.name, thread@, opt_chars(parent_conversation_id)),
        ),
{
    let metadata = thread_metadata(thread);
    let source = source_name(thread.get("source"));
    let mut list = ActionList::new();
    if !same(source.as_str(), binding.source.as_str()) {
        let mut refreshed = binding.clone();
        refreshed.source = source.clone();
        refreshed.updated_at = now;
        list.push(Action::StoreBinding(refreshed));
    }
    let ghost stored = source_synced(binding@, thread@, now);
    proof {
        assert(list@ =~= stored);
    }
    let auto_title = does_follow_title(&extra, conversation.name.as_str());
    let extra_changed = is_described_anew(
        &extra,
        source.as_str(),
        &metadata,
        parent_conversation_id,
        auto_title,
    );
    let name = if auto_title {
        thread_display_title(thread, &metadata)
    } else {
        conversation.name.clone()
    };
    let name_changed = !same(name.as_str(), conversation.name.as_str());
    let ghost synced = description_synced(extra@, conversation@, thread@, opt_chars(parent_conversation_id));
    if extra_changed || name_changed {
        let next = describe(extra, source.as_str(), &metadata, parent_conversation_id, auto_title);
        let update = ConversationRowUpdate {
            name: if name_changed {
                Some(name)
            } else {
                None
            },
            extra: Some(print(&next)),
            status: None,
            updated_at: None,
        };
        list.push(Action::UpdateConversation { conversation_id: conversation.id.clone(), update });
        list.push(broadcast_list_changed(conversation.id.as_str(), "updated"));
    }
    proof {
        assert(list@ =~= stored + synced);
    }
    add_family(list, metadata.role.as_str(), binding, parent_conversation_id).done()
}

/// What is done for a conversation whose thread has been read again. Extra data that takes no
/// members is not dealt with.
pub fn sync_conversation_thread_metadata(
    conversation: &ConversationRow,
    binding: &CodexThreadBindingRow,
    thread: &Json,
    parent_conversation_id: Option<&str>,
    now: i64,
) -> (r: Option<Vec<Action>>)
    ensures
        opt_actions(r) == if document(conversation.extra@).takes_members() {
            Some(
                metadata_synced(
                    document(conversation.extra@),
                    conversation@,
                    binding@,
                    thread@,
                    opt_chars(parent_conversation_id),
                    now,
                ),
            )
        } else {
            None
        },
        match r {
            Some(list) => described_once(
                conversation@,
                thread@,
                opt_chars(parent_conversation_id),
                actions(list@),
                source_synced(binding@, thread@, now).len() as int,
            ),
            None => true,
        },
{
    match readable_extra(conversation.extra.as_str()) {
        Some(extra) => {
            let ghost before = extra@;
            let ghost parent = opt_chars(parent_conversation_id);
            let list = sync_metadata(extra, conversation, binding, thread, parent_conversation_id, now);
            proof {
                let synced = description_synced(before, conversation@, thread@, parent);
                let at = source_synced(binding@, thread@, now).len() as int;
                if synced.len() > 0 {
                    assert(actions(list@)[at] == synced[0]);
                    let update = actions(list@)[at]->UpdateConversation_update;
                    let after = conversation@.updated(update);
                    reading_a_thread_again_changes_nothing(
                        before,
                        conversation@,
                        thread@,
                        parent,
                        document(after.extra),
                    );
                }
            }
            Some(list)
        },
        None => None,
    }
}

/// Where a conversation is updated, by the action at `at`, what is read back of its extra data reads
/// like what it now keeps of its thread, and taking in the thread once more changes nothing.
pub open spec fn described_once(
    conversation: ConversationView,
    thread: Tree,
    parent_conversation_id: Option<Seq<char>>,
    list: Seq<ActionView>,
    at: int,
) -> bool {
    let extra = document(conversation.extra);
    description_synced(extra, conversation, thread, parent_conversation_id).len() > 0 ==> {
        let after = conversation.updated(list[at]->UpdateConversation_update);
        &&& list[at].stores_extra(next_extra(extra, conversation.name, thread, parent_conversation_id))
        &&& description_synced(document(after.extra), after, thread, parent_conversation_id) == Seq::<
            ActionView,
        >::empty()
    }
}

/// Once a conversation has taken in what its thread says of itself, taking in the same again
/// changes nothing, and nobody is told. `again` is what is read back of the extra data.
pub proof fn reading_a_thread_again_changes_nothing(
    extra: Tree,
    conversation: ConversationView,
    thread: Tree,
    parent_conversation_id: Option<Seq<char>>,
    again: Tree,
)
    requires
        extra.takes_members(),
        reads_like(again, next_extra(extra, conversation.name, thread, parent_conversation_id)),
    ensures
        ({
            let name = next_name(extra, conversation.name, thread);
            let renamed = ConversationView { name, ..conversation };
            &&& next_extra(again, name, thread, parent_conversation_id) == again
            &&& next_name(again, name, thread) == name
            &&& description_synced(again, renamed, thread, parent_conversation_id) == Seq::<ActionView>::empty()
        }),
{
    let source = name_of_source(thread.get("source"@));
    let metadata = metadata_of(thread);
    let auto_title = follows_title(extra, conversation.name);
    let next = described(extra, source, metadata, parent_conversation_id, auto_title);
    let name = next_name(extra, conversation.name, thread);
    lemma_described(extra, source, metadata, parent_conversation_id, auto_title);
    lemma_read_member(again, next, "codex_source"@);
    lemma_read_member(again, next, "codex_thread_role"@);
    lemma_read_member(again, next, "codex_parent_thread_id"@);
    lemma_read_member(again, next, "codex_parent_conversation_id"@);
    lemma_read_member(again, next, "codex_subagent_kind"@);
    lemma_read_member(again, next, "codex_agent_path"@);
    lemma_read_member(again, next, "codex_agent_nickname"@);
    lemma_read_member(again, next, "codex_agent_role"@);
    lemma_read_member(again, next, "codex_agent_depth"@);
    lemma_read_member(again, next, "codex_can_accept_direct_input"@);
    lemma_read_member(again, next, "codex_auto_title"@);
    assert(!some_member_differs(again, source, metadata, parent_conversation_id, auto_title));
    lemma_differs(again, source, metadata, parent_conversation_id, auto_title);
    assert(follows_title(again, name) == auto_title);
}

/// A member that is a string, a truth value or an integer, or is missing, is read back as it is, and
/// nothing else is read back as one.
proof fn lemma_read_member(again: Tree, next: Tree, key: Seq<char>)
    requires
        next is Object,
        reads_like(again, next),
    ensures
        again is Object,
        next.get(key) is None <==> again.get(key) is None,
        next.get(key) matches Some(member) && (member is Str || member is Bool || member is Int) ==> again.get(key)
            == next.get(key),
        bool_in(again.get(key)) == bool_in(next.get(key)),
{
    assert(again->Object_0.contains_key(key) == next->Object_0.contains_key(key));
    if next->Object_0.contains_key(key) {
        let a = again->Object_0[key];
        let b = next->Object_0[key];
        if b is Str || b is Bool || b is Int {
            assert(crate::wire::reads_back(b, 126));
        }
        if a is Bool {
            assert(crate::wire::reads_back(a, 126));
        }
    }
}

/// Two documents hold the same of what a conversation keeps of its thread.
pub open spec fn describes_alike(a: Tree, b: Tree) -> bool {
    &&& a.get("codex_source"@) == b.get("codex_source"@)
    &&& a.get("codex_thread_role"@) == b.get("codex_thread_role"@)
    &&& a.get("codex_parent_thread_id"@) == b.get("codex_parent_thread_id"@)
    &&& a.get("codex_parent_conversation_id"@) == b.get("codex_parent_conversation_id"@)
    &&& a.get("codex_subagent_kind"@) == b.get("codex_subagent_kind"@)
    &&& a.get("codex_agent_path"@) == b.get("codex_agent_path"@)
    &&& a.get("codex_agent_nickname"@) == b.get("codex_agent_nickname"@)
    &&& a.get("codex_agent_role"@) == b.get("codex_agent_role"@)
    &&& a.get("codex_agent_depth"@) == b.get("codex_agent_depth"@)
    &&& a.get("codex_can_accept_direct_input"@) == b.get("codex_can_accept_direct_input"@)
    &&& a.get("codex_auto_title"@) == b.get("codex_auto_title"@)
}

/// What a conversation has taken in of its thread stays taken in where other members of the extra
/// data change. `again` is what is read back of the extra data then.
pub proof fn other_members_make_no_difference(
    extra: Tree,
    conversation: ConversationView,
    thread: Tree,
    parent_conversation_id: Option<Seq<char>>,
    next: Tree,
    again: Tree,
)
    requires
        extra.takes_members(),
        description_synced(extra, conversation, thread, parent_conversation_id).len() == 0,
        next is Object,
        describes_alike(next, extra),
        reads_like(again, next),
    ensures
        description_synced(again, conversation, thread, parent_conversation_id).len() == 0,
{
    let source = name_of_source(thread.get("source"@));
    let metadata = metadata_of(thread);
    let auto_title = follows_title(extra, conversation.name);
    lemma_differs(extra, source, metadata, parent_conversation_id, auto_title);
    lemma_read_member(again, next, "codex_source"@);
    lemma_read_member(again, next, "codex_thread_role"@);
    lemma_read_member(again, next, "codex_parent_thread_id"@);
    lemma_read_member(again, next, "codex_parent_conversation_id"@);
    lemma_read_member(again, next, "codex_subagent_kind"@);
    lemma_read_member(again, next, "codex_agent_path"@);
    lemma_read_member(again, next, "codex_agent_nickname"@);
    lemma_read_member(again, next, "codex_agent_role"@);
    lemma_read_member(again, next, "codex_agent_depth"@);
    lemma_read_member(again, next, "codex_can_accept_direct_input"@);
    lemma_read_member(again, next, "codex_auto_title"@);
    assert(follows_title(again, conversation.name) == auto_title);
    assert(!some_member_differs(again, source, metadata, parent_conversation_id, auto_title));
    lemma_differs(again, source, metadata, parent_conversation_id, auto_title);
}

/// A conversation that has taken in a thread of its own names no thread that it was spawned from.
pub proof fn a_thread_of_its_own_has_no_parent(
    extra: Tree,
    conversation: ConversationView,
    thread: Tree,
    parent_conversation_id: Option<Seq<char>>,
)
    requires
        extra.takes_members(),
        description_synced(extra, conversation, thread, parent_conversation_id).len() == 0,
        metadata_of(thread).role == "root"@,
    ensures
        extra.get("codex_parent_thread_id"@) is None,
{
    crate::thread::the_role_tells_sub_agents(thread);
    let auto_title = follows_title(extra, conversation.name);
    lemma_differs(
        extra,
        name_of_source(thread.get("source"@)),
        metadata_of(thread),
        parent_conversation_id,
        auto_title,
    );
}

/// A conversation keeps its name where that was not given for want of another and is not said to
/// follow the thread.
pub proof fn a_chosen_name_stays(extra: Tree, name: Seq<char>, thread: Tree)
    requires
        bool_in(extra.get("codex_auto_title"@)) != Some(true),
        name != DEFAULT_TITLE@,
        name != DEFAULT_SUBAGENT_TITLE@,
    ensures
        next_name(extra, name, thread) == name,
{
}

/// The member named `key` is this text, or is not there where there is none.
pub open spec fn says(tree: Tree, key: Seq<char>, text: Option<Seq<char>>) -> bool {
    match text {
        Some(text) => tree.get(key) == Some(Tree::Str(text)),
        None => tree.get(key) is None,
    }
}

/// A conversation keeps what its thread says of itself, each under its name, with the conversation that it
/// belongs to, and the rest of its extra data stays. A depth, or whether the thread takes input, is kept
/// where the thread does not say it.
pub proof fn a_conversation_keeps_what_its_thread_says(
    extra: Tree,
    name: Seq<char>,
    thread: Tree,
    parent_conversation_id: Option<Seq<char>>,
    other: Seq<char>,
)
    requires
        extra.takes_members(),
        other != "codex_source"@,
        other != "codex_thread_role"@,
        other != "codex_parent_thread_id"@,
        other != "codex_parent_conversation_id"@,
        other != "codex_subagent_kind"@,
        other != "codex_agent_path"@,
        other != "codex_agent_nickname"@,
        other != "codex_agent_role"@,
        other != "codex_agent_depth"@,
        other != "codex_can_accept_direct_input"@,
        other != "codex_auto_title"@,
    ensures
        ({
            let next = next_extra(extra, name, thread, parent_conversation_id);
            let metadata = metadata_of(thread);
            &&& next.get("codex_source"@) == Some(Tree::Str(name_of_source(thread.get("source"@))))
            &&& next.get("codex_thread_role"@) == Some(Tree::Str(metadata.role))
            &&& says(next, "codex_parent_thread_id"@, metadata.parent_thread_id)
            &&& says(next, "codex_parent_conversation_id"@, parent_conversation_id)
            &&& says(next, "codex_subagent_kind"@, metadata.kind)
            &&& says(next, "codex_agent_path"@, metadata.agent_path)
            &&& says(next, "codex_agent_nickname"@, metadata.agent_nickname)
            &&& says(next, "codex_agent_role"@, metadata.agent_role)
            &&& metadata.depth matches Some(depth) ==> next.get("codex_agent_depth"@) == Some(Tree::Int(depth))
            &&& metadata.depth is None ==> next.get("codex_agent_depth"@) == extra.get("codex_agent_depth"@)
            &&& metadata.can_accept_direct_input matches Some(b) ==> next.get("codex_can_accept_direct_input"@) == Some(
                Tree::Bool(b),
            )
            &&& metadata.can_accept_direct_input is None ==> next.get("codex_can_accept_direct_input"@) == extra.get(
                "codex_can_accept_direct_input"@,
            )
            &&& follows_title(extra, name) ==> next.get("codex_auto_title"@) == Some(Tree::Bool(true))
            &&& !follows_title(extra, name) ==> next.get("codex_auto_title"@) == extra.get("codex_auto_title"@)
            &&& next.get(other) == extra.get(other)
        }),
{
    reveal(described);
    lemma_names_differ();
}

/// The name of a conversation follows the title of its thread where it is said to, or where nothing is
/// said and it was given for want of another. It is then that title.
pub proof fn a_name_that_follows_is_the_title(extra: Tree, name: Seq<char>, thread: Tree)
    ensures
        extra.get("codex_auto_title"@) == Some(Tree::Bool(true)) ==> next_name(extra, name, thread) == display_title(
            thread,
            metadata_of(thread),
        ),
        extra.get("codex_auto_title"@) == Some(Tree::Bool(false)) ==> next_name(extra, name, thread) == name,
        extra.get("codex_auto_title"@) is None && (name == "GPT Codex"@ || name == "GPT Codex 子智能体"@) ==> next_name(
            extra,
            name,
            thread,
        ) == display_title(thread, metadata_of(thread)),
        extra.get("codex_auto_title"@) is None && name != "GPT Codex"@ && name != "GPT Codex 子智能体"@ ==> next_name(
            extra,
            name,
            thread,
        ) == name,
{
}

/// A binding is stored again exactly where the source of its thread is another, with that source and the
/// time, and else as it was.
pub proof fn a_new_source_is_stored(binding: BindingView, thread: Tree, now: i64)
    ensures
        name_of_source(thread.get("source"@)) == binding.source ==> source_synced(binding, thread, now).len() == 0,
        name_of_source(thread.get("source"@)) != binding.source ==> source_synced(binding, thread, now) == seq![
            ActionView::StoreBinding(
                BindingView { source: name_of_source(thread.get("source"@)), updated_at: now, ..binding },
            ),
        ],
{
}

/// A conversation whose name or extra data change is updated with what is new of them, which is told;
/// neither its status nor its time changes. One whose do not is left alone.
pub proof fn a_new_description_is_stored_and_told(
    extra: Tree,
    conversation: ConversationView,
    thread: Tree,
    parent_conversation_id: Option<Seq<char>>,
)
    ensures
        ({
            let next = next_extra(extra, conversation.name, thread, parent_conversation_id);
            let name = next_name(extra, conversation.name, thread);
            let list = description_synced(extra, conversation, thread, parent_conversation_id);
            &&& next == extra && name == conversation.name ==> list.len() == 0
            &&& next != extra || name != conversation.name ==> {
                &&& list.len() == 2
                &&& list[0] matches ActionView::UpdateConversation { conversation_id, update }
                &&& conversation_id == conversation.id
                &&& update.extra == Some(displayed(next))
                &&& name != conversation.name ==> update.name == Some(name)
                &&& name == conversation.name ==> update.name is None
                &&& update.status is None
                &&& update.updated_at is None
                &&& list[1] == list_changed(conversation.id, "updated"@)
            }
        }),
{
}

} // verus!
