//! Conversations that follow the threads they show.
use vstd::prelude::*;

use crate::actions::{actions, broadcast_list_changed, list_changed, Action, ActionList, ActionView};
use crate::items::pushed_if;
use crate::json::{i64_in, object, opt_str_tree, Json, Tree};
use crate::paths::{within, workspace_matches};
use crate::protocol::CodexAppServerSnapshot;
use crate::rows::{
    binding_of_user, bindings_of, first_of_user, BindingView, CodexThreadBindingRow, CodexWatchedWorkspaceRow,
    ConversationError, ConversationRow, ConversationRowUpdate, ConversationView, UpdateView, WorkspaceView,
};
use crate::table::lookup;
use crate::text::{as_deref, equals, opt_chars, same, same_opt, to_owned};
use crate::thread::{
    binding_from_thread, bound, display_title, i64_at, is_in_range, metadata_of, millis, name_of_source, running_turn,
    seconds_fit, source_name, status_of, thread_display_title, thread_metadata, thread_running_turn, thread_status,
    times_fit, to_millis, CodexThreadMetadata,
};
use crate::wire::{displayed, document, is_readable, is_shallow, parse_or_empty, print, reads_like};

verus! {

/// The state of a binding whose thread has this status.
pub open spec fn live_state(status: Option<Seq<char>>) -> Seq<char> {
    if status == Some("notLoaded"@) {
        "stored_only"@
    } else {
        "live"@
    }
}

fn state_for(status: Option<&str>) -> (r: &'static str)
    ensures
        r@ == live_state(opt_chars(status)),
{
    if equals(status, "notLoaded") {
        "stored_only"
    } else {
        "live"
    }
}

/// What a thread's turns and status do to the turn that runs in its conversation, and to its
/// binding. Without a turn in progress, the turn that ran is over unless the thread is active.
pub open spec fn turn_synced(
    conversation_id: Seq<char>,
    thread: Tree,
    active_turn: Option<Seq<char>>,
    now: i64,
) -> Seq<ActionView> {
    let status = status_of(thread);
    let live = ActionView::SetLiveState { conversation_id, live_state: live_state(status), updated_at: now };
    match running_turn(thread) {
        Some(turn_id) => seq![ActionView::SetExternalTurn { conversation_id, turn_id }, live],
        None => match active_turn {
            Some(turn_id) => if status != Some("active"@) {
                seq![ActionView::ClearExternalTurn { conversation_id, turn_id }, live]
            } else {
                seq![live]
            },
            None => seq![live],
        },
    }
}

/// What a thread's turns and status do to the turn that runs in its conversation, and to its
/// binding.
pub fn sync_external_turn(conversation_id: &str, thread: &Json, active_turn: Option<&str>, now: i64) -> (r: Vec<Action>)
    ensures
        actions(r@) == turn_synced(conversation_id@, thread@, opt_chars(active_turn), now),
{
    let status = thread_status(thread);
    let live = Action::SetLiveState {
        conversation_id: conversation_id.to_owned(),
        live_state: state_for(status).to_owned(),
        updated_at: now,
    };
    let list = ActionList::new();
    match thread_running_turn(thread) {
        Some(turn_id) => list.and(
            Action::SetExternalTurn { conversation_id: conversation_id.to_owned(), turn_id: turn_id.to_owned() },
        ).and(live).done(),
        None => match active_turn {
            Some(turn_id) => if !equals(status, "active") {
                list.and(
                    Action::ClearExternalTurn {
                        conversation_id: conversation_id.to_owned(),
                        turn_id: turn_id.to_owned(),
                    },
                ).and(live).done()
            } else {
                list.and(live).done()
            },
            None => list.and(live).done(),
        },
    }
}

/// The status of a conversation whose thread has this status, where that says one.
pub open spec fn conversation_status(status: Option<Seq<char>>) -> Option<Seq<char>> {
    if status == Some("active"@) {
        Some("running"@)
    } else if status == Some("idle"@) || status == Some("notLoaded"@) {
        Some("finished"@)
    } else {
        None
    }
}

/// The time that a thread was last changed is one in milliseconds, where it is asked for.
pub open spec fn state_time_fits(thread: Tree) -> bool {
    status_of(thread) == Some("active"@) || seconds_fit(i64_in(thread.get("updatedAt"@)))
}

/// Whether the time that a thread was last changed is one in milliseconds, where it is asked for.
pub fn thread_state_time_fits(thread: &Json) -> (r: bool)
    ensures
        r == state_time_fits(thread@),
{
    equals(thread_status(thread), "active") || is_in_range(i64_at(thread, "updatedAt"))
}

/// What a thread's status does to the conversation that shows it.
pub open spec fn state_synced(extra: Tree, conversation: ConversationView, thread: Tree, now: i64) -> Seq<ActionView> {
    let status = status_of(thread);
    let live = live_state(status);
    let next = conversation_status(status);
    let updated = seq![
        ActionView::UpdateConversation {
            conversation_id: conversation.id,
            update: UpdateView {
                name: None,
                extra: Some(displayed(extra.put("codex_live_state"@, Tree::Str(live)))),
                status: next,
                updated_at: Some(
                    if status == Some("active"@) {
                        now
                    } else {
                        millis(i64_in(thread.get("updatedAt"@)), conversation.updated_at)
                    },
                ),
            },
        },
    ];
    let told = pushed_if(
        updated,
        extra.str_at("codex_live_state"@) != Some(live) || (next is Some && conversation.status != next),
        list_changed(conversation.id, "updated"@),
    );
    match extra.str_at("codex_parent_conversation_id"@) {
        Some(parent) => told.push(ActionView::CountSubagents { conversation_id: parent }),
        None => told,
    }
}

/// What a thread's status does to the conversation that shows it, whose extra data is given.
pub fn sync_state(extra: Json, conversation: &ConversationRow, thread: &Json, now: i64) -> (r: Vec<Action>)
    requires
        extra@.takes_members(),
        state_time_fits(thread@),
    ensures
        actions(r@) == state_synced(extra@, conversation@, thread@, now),
        is_shallow(extra@) ==> actions(r@)[0].stores_extra(
            extra@.put("codex_live_state"@, Tree::Str(live_state(status_of(thread@)))),
        ),
{
    proof {
        broadcast use crate::wire::a_document_stays_shallow_with_a_member;

    }
    let status = thread_status(thread);
    let live = state_for(status);
    let parent = to_owned(extra.str_at("codex_parent_conversation_id"));
    let live_changed = !equals(extra.str_at("codex_live_state"), live);
    let next: Option<&str> = if equals(status, "active") {
        Some("running")
    } else if equals(status, "idle") || equals(status, "notLoaded") {
        Some("finished")
    } else {
        None
    };
    let status_changed = next.is_some() && !same_opt(as_deref(&conversation.status), next);
    let updated_at: i64 = if equals(status, "active") {
        now
    } else {
        to_millis(i64_at(thread, "updatedAt"), conversation.updated_at)
    };
    let next_extra = extra.put("codex_live_state", Json::str(live));
    let list = ActionList::new().and(
        Action::UpdateConversation {
            conversation_id: conversation.id.clone(),
            update: ConversationRowUpdate {
                name: None,
                extra: Some(print(&next_extra)),
                status: to_owned(next),
                updated_at: Some(updated_at),
            },
        },
    ).and_if(
        live_changed || status_changed,
        broadcast_list_changed(conversation.id.as_str(), "updated"),
    );
    match parent {
        Some(parent) => list.and(Action::CountSubagents { conversation_id: parent }).done(),
        None => list.done(),
    }
}

/// The extra data of a conversation, where it takes members.
pub fn readable_extra(text: &str) -> (r: Option<Json>)
    ensures
        match r {
            Some(extra) => extra@ == document(text@) && extra@.takes_members() && is_shallow(extra@),
            None => !document(text@).takes_members(),
        },
{
    let extra = parse_or_empty(text);
    match extra {
        Json::Null => Some(extra),
        Json::Object(_) => Some(extra),
        _ => None,
    }
}

/// What a list that may be missing asks for.
pub open spec fn opt_actions(r: Option<Vec<Action>>) -> Option<Seq<ActionView>> {
    match r {
        Some(list) => Some(actions(list@)),
        None => None,
    }
}

/// What a thread's status does to the conversation that shows it. Extra data that takes no members
/// is not dealt with.
pub fn sync_binding_thread_state(conversation: &ConversationRow, thread: &Json, now: i64) -> (r: Option<Vec<Action>>)
    requires
        state_time_fits(thread@),
    ensures
        opt_actions(r) == if document(conversation.extra@).takes_members() {
            Some(state_synced(document(conversation.extra@), conversation@, thread@, now))
        } else {
            None
        },
        match r {
            Some(list) => actions(list@)[0].stores_extra(
                document(conversation.extra@).put(
                    "codex_live_state"@,
                    Tree::Str(live_state(status_of(thread@))),
                ),
            ),
            None => true,
        },
{
    match readable_extra(conversation.extra.as_str()) {
        Some(extra) => Some(sync_state(extra, conversation, thread, now)),
        None => None,
    }
}

/// What is to be done for a thread in a workspace.
#[derive(Debug, PartialEq)]
pub enum BindingStep {
    /// A conversation of the user shows the thread already.
    Bound(CodexThreadBindingRow),
    /// The workspace does not cover the thread.
    Outside,
    /// A conversation is to be made for the thread.
    Create,
}

pub enum BindingStepView {
    Bound(BindingView),
    Outside,
    Create,
}

impl View for BindingStep {
    type V = BindingStepView;

    open spec fn view(&self) -> BindingStepView {
        match self {
            BindingStep::Bound(row) => BindingStepView::Bound(row@),
            BindingStep::Outside => BindingStepView::Outside,
            BindingStep::Create => BindingStepView::Create,
        }
    }
}

/// What is to be done for a thread in a workspace, where these rows bind the thread. `cwd` is the
/// thread's directory with links resolved.
pub open spec fn binding_step(rows: Seq<BindingView>, workspace: WorkspaceView, cwd: Seq<char>) -> BindingStepView {
    match first_of_user(rows, workspace.user_id) {
        Some(row) => BindingStepView::Bound(row),
        None => if within(workspace.root_path, cwd, workspace.recursive) {
            BindingStepView::Create
        } else {
            BindingStepView::Outside
        },
    }
}

/// What is to be done for a thread in a workspace.
pub fn ensure_binding_for_workspace(
    rows: &Vec<CodexThreadBindingRow>,
    workspace: &CodexWatchedWorkspaceRow,
    cwd: &str,
) -> (r: BindingStep)
    ensures
        r@ == binding_step(bindings_of(rows@), workspace@, cwd@),
{
    match binding_of_user(rows, workspace.user_id.as_str()) {
        Some(row) => BindingStep::Bound(row),
        None => if workspace_matches(workspace.root_path.as_str(), cwd, workspace.recursive) {
            BindingStep::Create
        } else {
            BindingStep::Outside
        },
    }
}

/// The thread that is to be bound before anything about it is shown: the one that is known by this
/// id, where no row binds it.
pub fn thread_to_bind(rows: &Vec<CodexThreadBindingRow>, snapshot: &CodexAppServerSnapshot, thread_id: &str) -> (r:
    Option<Json>)
    ensures
        (match r {
            Some(thread) => Some(thread@),
            None => None,
        }) == if rows@.len() == 0 {
            lookup(snapshot@.threads, thread_id@)
        } else {
            None
        },
{
    if rows.len() > 0 {
        return None;
    }
    match snapshot.threads.get(thread_id) {
        Some(thread) => Some(thread.clone()),
        None => None,
    }
}

pub(crate) proof fn lemma_found(rows: Seq<BindingView>, user_id: Seq<char>)
    ensures
        match first_of_user(rows, user_id) {
            Some(row) => rows.contains(row) && row.user_id == user_id,
            None => forall|i: int| 0 <= i < rows.len() ==> (#[trigger] rows[i]).user_id != user_id,
        },
    decreases rows.len(),
{
    if rows.len() > 0 && rows[0].user_id != user_id {
        let rest = rows.drop_first();
        lemma_found(rest, user_id);
        match first_of_user(rest, user_id) {
            Some(row) => {
                let i = choose|i: int| 0 <= i < rest.len() && rest[i] == row;
                assert(rows[i + 1] == row);
            },
            None => {
                assert forall|i: int| 0 <= i < rows.len() implies (#[trigger] rows[i]).user_id != user_id by {
                    if i > 0 {
                        assert(rest[i - 1] == rows[i]);
                    }
                }
            },
        }
    }
}

/// A thread gets a new conversation exactly when the workspace covers it and no conversation of
/// the user shows it: a thread that has been seen before gets none.
pub proof fn a_thread_is_shown_once(rows: Seq<BindingView>, workspace: WorkspaceView, cwd: Seq<char>)
    ensures
        binding_step(rows, workspace, cwd) is Create <==> within(
            workspace.root_path,
            cwd,
            workspace.recursive,
        ) && forall|i: int| 0 <= i < rows.len() ==> (#[trigger] rows[i]).user_id != workspace.user_id,
        binding_step(rows, workspace, cwd) matches BindingStepView::Bound(row) ==> rows.contains(row)
            && row.user_id == workspace.user_id,
{
    lemma_found(rows, workspace.user_id);
}

/// Once a thread is bound for a user, none of the user's workspaces makes another conversation for
/// it, wherever the thread then is.
pub proof fn a_bound_thread_stays_bound(rows: Seq<BindingView>, row: BindingView, workspace: WorkspaceView, cwd: Seq<char>)
    requires
        rows.contains(row),
        row.user_id == workspace.user_id,
    ensures
        binding_step(rows, workspace, cwd) is Bound,
{
    lemma_found(rows, workspace.user_id);
    let i = choose|i: int| 0 <= i < rows.len() && rows[i] == row;
    assert(rows[i].user_id == workspace.user_id);
}

pub open spec fn opt_int_tree(i: Option<i64>) -> Tree {
    match i {
        Some(i) => Tree::Int(i),
        None => Tree::Null,
    }
}

pub open spec fn opt_bool_tree(b: Option<bool>) -> Tree {
    match b {
        Some(b) => Tree::Bool(b),
        None => Tree::Null,
    }
}

fn opt_int(i: Option<i64>) -> (r: Json)
    ensures
        r@ == opt_int_tree(i),
{
    match i {
        Some(i) => Json::Int(i),
        None => Json::Null,
    }
}

fn opt_bool(b: Option<bool>) -> (r: Json)
    ensures
        r@ == opt_bool_tree(b),
{
    match b {
        Some(b) => Json::Bool(b),
        None => Json::Null,
    }
}

/// The text, or another where there is none.
pub open spec fn text_or(s: Option<Seq<char>>, default: Seq<char>) -> Seq<char> {
    match s {
        Some(s) => s,
        None => default,
    }
}

/// The extra data of a conversation that is made for a thread.
pub open spec fn discovered_extra(thread: Tree, watch: WorkspaceView, parent_conversation_id: Option<Seq<char>>) -> Tree {
    let metadata = metadata_of(thread);
    object().put("workspace"@, Tree::Str(text_or(thread.str_at("cwd"@), watch.root_path))).put(
        "custom_workspace"@,
        Tree::Bool(true),
    ).put("backend"@, Tree::Str("codex-native"@)).put("agent_id"@, Tree::Str("c0d3a55e"@)).put(
        "agent_source"@,
        Tree::Str("builtin"@),
    ).put("codex_thread_id"@, Tree::Str(text_or(thread.str_at("id"@), ""@))).put(
        "codex_source"@,
        Tree::Str(name_of_source(thread.get("source"@))),
    ).put("codex_live_state"@, Tree::Str(live_state(status_of(thread)))).put(
        "codex_watched_root"@,
        Tree::Str(watch.root_path),
    ).put("codex_thread_role"@, Tree::Str(metadata.role)).put(
        "codex_parent_thread_id"@,
        opt_str_tree(metadata.parent_thread_id),
    ).put("codex_parent_conversation_id"@, opt_str_tree(parent_conversation_id)).put(
        "codex_subagent_kind"@,
        opt_str_tree(metadata.kind),
    ).put("codex_agent_path"@, opt_str_tree(metadata.agent_path)).put(
        "codex_agent_nickname"@,
        opt_str_tree(metadata.agent_nickname),
    ).put("codex_agent_role"@, opt_str_tree(metadata.agent_role)).put(
        "codex_agent_depth"@,
        opt_int_tree(metadata.depth),
    ).put("codex_can_accept_direct_input"@, opt_bool_tree(metadata.can_accept_direct_input)).put(
        "codex_auto_title"@,
        Tree::Bool(true),
    )
}

fn make_discovered_extra(
    thread: &Json,
    metadata: &CodexThreadMetadata,
    watch: &CodexWatchedWorkspaceRow,
    parent_conversation_id: Option<&str>,
) -> (r: Json)
    requires
        metadata@ == metadata_of(thread@),
    ensures
        r@ == discovered_extra(thread@, watch@, opt_chars(parent_conversation_id)),
        is_readable(r@),
{
    proof {
        broadcast use crate::wire::a_document_stays_readable_with_a_member;

    }
    let cwd = match thread.str_at("cwd") {
        Some(cwd) => cwd,
        None => watch.root_path.as_str(),
    };
    let id = match thread.str_at("id") {
        Some(id) => id,
        None => "",
    };
    Json::object().put("workspace", Json::str(cwd)).put("custom_workspace", Json::Bool(true)).put(
        "backend",
        Json::str("codex-native"),
    ).put("agent_id", Json::str("c0d3a55e")).put("agent_source", Json::str("builtin")).put(
        "codex_thread_id",
        Json::str(id),
    ).put("codex_source", Json::Str(source_name(thread.get("source")))).put(
        "codex_live_state",
        Json::str(state_for(thread_status(thread))),
    ).put("codex_watched_root", Json::str(watch.root_path.as_str())).put(
        "codex_thread_role",
        Json::str(metadata.role.as_str()),
    ).put("codex_parent_thread_id", Json::opt_str(as_deref(&metadata.parent_thread_id))).put(
        "codex_parent_conversation_id",
        Json::opt_str(parent_conversation_id),
    ).put("codex_subagent_kind", Json::opt_str(as_deref(&metadata.kind))).put(
        "codex_agent_path",
        Json::opt_str(as_deref(&metadata.agent_path)),
    ).put("codex_agent_nickname", Json::opt_str(as_deref(&metadata.agent_nickname))).put(
        "codex_agent_role",
        Json::opt_str(as_deref(&metadata.agent_role)),
    ).put("codex_agent_depth", opt_int(metadata.depth)).put(
        "codex_can_accept_direct_input",
        opt_bool(metadata.can_accept_direct_input),
    ).put("codex_auto_title", Json::Bool(true))
}

/// The conversation that is made for a thread.
pub open spec fn discovered(
    id: Seq<char>,
    thread: Tree,
    watch: WorkspaceView,
    parent_conversation_id: Option<Seq<char>>,
    now: i64,
) -> ConversationView {
    ConversationView {
        id,
        user_id: watch.user_id,
        name: display_title(thread, metadata_of(thread)),
        conversation_type: "codex-app-server"@,
        extra: displayed(discovered_extra(thread, watch, parent_conversation_id)),
        model: None,
        status: Some(
            if status_of(thread) == Some("active"@) {
                "running"@
            } else {
                "finished"@
            },
        ),
        source: Some("aionui"@),
        channel_chat_id: None,
        pinned: false,
        pinned_at: None,
        created_at: millis(i64_in(thread.get("createdAt"@)), now),
        updated_at: millis(i64_in(thread.get("updatedAt"@)), now),
    }
}

/// The conversation that is made for a thread, and the binding between them. `id` is a new one.
pub fn create_discovered_conversation(
    id: &str,
    codex_home: &str,
    thread: &Json,
    watch: &CodexWatchedWorkspaceRow,
    parent_conversation_id: Option<&str>,
    now: i64,
) -> (r: (ConversationRow, Result<CodexThreadBindingRow, ConversationError>))
    requires
        times_fit(thread@),
    ensures
        r.0@ == discovered(id@, thread@, watch@, opt_chars(parent_conversation_id), now),
        document(r.0@.extra) == discovered_extra(thread@, watch@, opt_chars(parent_conversation_id)),
        crate::thread::bound_view(r.1) == bound(
            codex_home@,
            thread@,
            watch.user_id@,
            id@,
            live_state(status_of(thread@)),
            now,
        ),
{
    let metadata = thread_metadata(thread);
    let status = thread_status(thread);
    let extra = make_discovered_extra(thread, &metadata, watch, parent_conversation_id);
    let row = ConversationRow {
        id: id.to_owned(),
        user_id: watch.user_id.clone(),
        name: thread_display_title(thread, &metadata),
        conversation_type: "codex-app-server".to_owned(),
        extra: print(&extra),
        model: None,
        status: Some(
            if equals(status, "active") {
                "running".to_owned()
            } else {
                "finished".to_owned()
            },
        ),
        source: Some("aionui".to_owned()),
        channel_chat_id: None,
        pinned: false,
        pinned_at: None,
        created_at: to_millis(i64_at(thread, "createdAt"), now),
        updated_at: to_millis(i64_at(thread, "updatedAt"), now),
    };
    let binding = binding_from_thread(
        codex_home,
        thread,
        watch.user_id.as_str(),
        id,
        state_for(status),
        now,
    );
    (row, binding)
}

/// What the place of a thread among the threads asks for: the sub-agents of a thread of its own
/// are linked to it, and those of the thread that a sub-agent belongs to are counted again.
pub open spec fn family(role: Seq<char>, binding: BindingView, parent_conversation_id: Option<Seq<char>>) -> Seq<ActionView> {
    if role == "root"@ {
        seq![ActionView::LinkSubagents(binding)]
    } else {
        match parent_conversation_id {
            Some(parent) => seq![ActionView::CountSubagents { conversation_id: parent }],
            None => Seq::empty(),
        }
    }
}

pub(crate) fn add_family(list: ActionList, role: &str, binding: &CodexThreadBindingRow, parent_conversation_id: Option<&str>) -> (r:
    ActionList)
    ensures
        r@ == list@ + family(role@, binding@, opt_chars(parent_conversation_id)),
{
    let ghost asked = family(role@, binding@, opt_chars(parent_conversation_id));
    let ghost before = list@;
    let r = if same(role, "root") {
        list.and(Action::LinkSubagents(binding.clone()))
    } else {
        match parent_conversation_id {
            Some(parent) => list.and(Action::CountSubagents { conversation_id: parent.to_owned() }),
            None => list,
        }
    };
    proof {
        assert(r@ =~= before + asked);
    }
    r
}

/// What is done once a conversation has been made for a thread, and its binding stored.
pub fn after_discovery(
    thread: &Json,
    id: &str,
    saved: &CodexThreadBindingRow,
    parent_conversation_id: Option<&str>,
) -> (r: Vec<Action>)
    ensures
        actions(r@) == family(metadata_of(thread@).role, saved@, opt_chars(parent_conversation_id)).push(
            list_changed(id@, "created"@),
        ),
{
    let metadata = thread_metadata(thread);
    let list = add_family(ActionList::new(), metadata.role.as_str(), saved, parent_conversation_id);
    proof {
        let asked = family(metadata_of(thread@).role, saved@, opt_chars(parent_conversation_id));
        assert(Seq::<ActionView>::empty() + asked =~= asked);
    }
    list.and(broadcast_list_changed(id, "created")).done()
}

/// What a conversation keeps of its thread's state is what the thread reports, and once it has been
/// taken in, the same report is not told again. `again` is what is read back of the extra data.
pub proof fn the_same_state_is_told_once(
    extra: Tree,
    conversation: ConversationView,
    thread: Tree,
    again: Tree,
    now: i64,
    later: i64,
)
    requires
        extra.takes_members(),
        reads_like(again, extra.put("codex_live_state"@, Tree::Str(live_state(status_of(thread))))),
    ensures
        ({
            let live = live_state(status_of(thread));
            let updated = conversation.updated(
                state_synced(extra, conversation, thread, now)[0]->UpdateConversation_update,
            );
            let list = state_synced(again, updated, thread, later);
            &&& again.str_at("codex_live_state"@) == Some(live)
            &&& conversation_status(status_of(thread)) is Some ==> updated.status == conversation_status(
                status_of(thread),
            )
            &&& forall|i: int| 0 <= i < list.len() ==> !(#[trigger] list[i] is Broadcast)
        }),
{
    let next = extra.put("codex_live_state"@, Tree::Str(live_state(status_of(thread))));
    assert(next->Object_0.contains_key("codex_live_state"@));
}

proof fn lemma_statuses_differ()
    ensures
        "active"@ != "idle"@,
        "active"@ != "notLoaded"@,
        "active"@ != "running"@,
        "active"@ != "finished"@,
        "active"@ != "live"@,
        "active"@ != "stored_only"@,
        "idle"@ != "notLoaded"@,
        "idle"@ != "running"@,
        "idle"@ != "finished"@,
        "idle"@ != "live"@,
        "idle"@ != "stored_only"@,
        "notLoaded"@ != "running"@,
        "notLoaded"@ != "finished"@,
        "notLoaded"@ != "live"@,
        "notLoaded"@ != "stored_only"@,
        "running"@ != "finished"@,
        "running"@ != "live"@,
        "running"@ != "stored_only"@,
        "finished"@ != "live"@,
        "finished"@ != "stored_only"@,
        "live"@ != "stored_only"@,
{
    reveal_strlit("active");
    reveal_strlit("idle");
    reveal_strlit("notLoaded");
    reveal_strlit("running");
    reveal_strlit("finished");
    reveal_strlit("live");
    reveal_strlit("stored_only");
    assert("active"@.len() != "idle"@.len());
    assert("active"@.len() != "notLoaded"@.len());
    assert("active"@.len() != "running"@.len());
    assert("active"@.len() != "finished"@.len());
    assert("active"@.len() != "live"@.len());
    assert("active"@.len() != "stored_only"@.len());
    assert("idle"@.len() != "notLoaded"@.len());
    assert("idle"@.len() != "running"@.len());
    assert("idle"@.len() != "finished"@.len());
    assert("idle"@[0] != "live"@[0]);
    assert("idle"@.len() != "stored_only"@.len());
    assert("notLoaded"@.len() != "running"@.len());
    assert("notLoaded"@.len() != "finished"@.len());
    assert("notLoaded"@.len() != "live"@.len());
    assert("notLoaded"@.len() != "stored_only"@.len());
    assert("running"@.len() != "finished"@.len());
    assert("running"@.len() != "live"@.len());
    assert("running"@.len() != "stored_only"@.len());
    assert("finished"@.len() != "live"@.len());
    assert("finished"@.len() != "stored_only"@.len());
    assert("live"@.len() != "stored_only"@.len());
}

/// Once a conversation has taken in the state of its thread, it is finished where the thread is idle or
/// not loaded, and running where the thread is active; any other status leaves its own as it was. It is
/// then as old as the thread says, or as now where the thread is active.
pub proof fn a_conversation_has_the_status_of_its_thread(
    extra: Tree,
    conversation: ConversationView,
    thread: Tree,
    now: i64,
    seconds: i64,
)
    ensures
        ({
            let list = state_synced(extra, conversation, thread, now);
            let updated = conversation.updated(list[0]->UpdateConversation_update);
            let status = thread.get_in("status"@, "type"@);
            &&& list.len() > 0 && list[0] is UpdateConversation
            &&& list[0]->UpdateConversation_conversation_id == conversation.id
            &&& status == Some(Tree::Str("idle"@)) ==> updated.status == Some("finished"@)
            &&& status == Some(Tree::Str("notLoaded"@)) ==> updated.status == Some("finished"@)
            &&& status == Some(Tree::Str("active"@)) ==> updated.status == Some("running"@)
            &&& status != Some(Tree::Str("idle"@)) && status != Some(Tree::Str("notLoaded"@)) && status != Some(
                Tree::Str("active"@),
            ) ==> updated.status == conversation.status
            &&& status == Some(Tree::Str("active"@)) ==> updated.updated_at == now
            &&& status != Some(Tree::Str("active"@)) && thread.get("updatedAt"@) == Some(Tree::Int(seconds))
                && i64::MIN <= seconds * 1000 <= i64::MAX ==> updated.updated_at == seconds * 1000
            &&& status != Some(Tree::Str("active"@)) && !(thread.get("updatedAt"@) matches Some(Tree::Int(_)))
                ==> updated.updated_at == conversation.updated_at
            &&& updated.name == conversation.name
        }),
{
    lemma_statuses_differ();
}

/// With the state of its thread, a conversation keeps whether the thread is loaded, and all else that
/// it kept.
pub proof fn a_conversation_keeps_whether_its_thread_is_loaded(
    extra: Tree,
    conversation: ConversationView,
    thread: Tree,
    now: i64,
)
    requires
        extra.takes_members(),
    ensures
        exists|next: Tree|
            {
                &&& state_synced(extra, conversation, thread, now)[0]->UpdateConversation_update.extra == Some(
                    #[trigger] displayed(next),
                )
                &&& thread.get_in("status"@, "type"@) == Some(Tree::Str("notLoaded"@)) ==> next.get(
                    "codex_live_state"@,
                ) == Some(Tree::Str("stored_only"@))
                &&& thread.get_in("status"@, "type"@) != Some(Tree::Str("notLoaded"@)) ==> next.get(
                    "codex_live_state"@,
                ) == Some(Tree::Str("live"@))
                &&& forall|key: Seq<char>| key != "codex_live_state"@ ==> #[trigger] next.get(key) == extra.get(key)
            },
{
    let next = extra.put("codex_live_state"@, Tree::Str(live_state(status_of(thread))));
    assert(state_synced(extra, conversation, thread, now)[0]->UpdateConversation_update.extra == Some(displayed(next)));
    assert forall|key: Seq<char>| key != "codex_live_state"@ implies #[trigger] next.get(key) == extra.get(key) by {}
}

/// That a conversation has taken in the state of its thread is told exactly when its status is then
/// another, or whether the thread is loaded; and the conversation that it is linked to, if any, has its
/// sub-agents counted.
pub proof fn a_change_of_state_is_told(extra: Tree, conversation: ConversationView, thread: Tree, now: i64, parent: Seq<char>)
    ensures
        ({
            let list = state_synced(extra, conversation, thread, now);
            let updated = conversation.updated(list[0]->UpdateConversation_update);
            let loaded = thread.get_in("status"@, "type"@) != Some(Tree::Str("notLoaded"@));
            let as_before = if loaded {
                extra.get("codex_live_state"@) == Some(Tree::Str("live"@))
            } else {
                extra.get("codex_live_state"@) == Some(Tree::Str("stored_only"@))
            };
            &&& list.contains(list_changed(conversation.id, "updated"@)) <==> !as_before || updated.status
                != conversation.status
            &&& extra.get("codex_parent_conversation_id"@) == Some(Tree::Str(parent)) ==> list.last() == (
            ActionView::CountSubagents { conversation_id: parent })
            &&& !(extra.get("codex_parent_conversation_id"@) matches Some(Tree::Str(_))) ==> !(list.last() is CountSubagents)
        }),
{
    lemma_statuses_differ();
    let list = state_synced(extra, conversation, thread, now);
    assert(list[0] is UpdateConversation);
    let told = list_changed(conversation.id, "updated"@);
    if list.len() > 1 {
        if list[1] is Broadcast {
            assert(list[1] == told);
            assert(list.contains(told));
        }
    }
    if list.contains(told) {
        let i = choose|i: int| 0 <= i < list.len() && list[i] == told;
        assert(list[i] is Broadcast);
    }
}

proof fn lemma_first_in_progress(turns: Seq<Tree>, at: int)
    requires
        0 <= at < turns.len(),
        turns[at].str_at("status"@) == Some("inProgress"@),
        forall|i: int| 0 <= i < at ==> (#[trigger] turns[i]).str_at("status"@) != Some("inProgress"@),
    ensures
        crate::thread::first_in_progress(turns) == Some(turns[at]),
    decreases turns.len(),
{
    if at > 0 {
        assert(turns[0].str_at("status"@) != Some("inProgress"@));
        let rest = turns.drop_first();
        assert forall|i: int| 0 <= i < at - 1 implies (#[trigger] rest[i]).str_at("status"@) != Some("inProgress"@) by {
            assert(rest[i] == turns[i + 1]);
        }
        lemma_first_in_progress(rest, at - 1);
    }
}

proof fn lemma_none_in_progress(turns: Seq<Tree>)
    requires
        forall|i: int| 0 <= i < turns.len() ==> (#[trigger] turns[i]).str_at("status"@) != Some("inProgress"@),
    ensures
        crate::thread::first_in_progress(turns) is None,
    decreases turns.len(),
{
    if turns.len() > 0 {
        assert(turns[0].str_at("status"@) != Some("inProgress"@));
        let rest = turns.drop_first();
        assert forall|i: int| 0 <= i < rest.len() implies (#[trigger] rest[i]).str_at("status"@) != Some("inProgress"@) by {
            assert(rest[i] == turns[i + 1]);
        }
        lemma_none_in_progress(rest);
    }
}

/// The first turn of a thread that is in progress is the one that then runs in its conversation, and
/// the state of the binding says whether the thread is loaded.
pub proof fn the_turn_in_progress_runs_in_the_conversation(
    conversation_id: Seq<char>,
    thread: Tree,
    turns: Seq<Tree>,
    at: int,
    active_turn: Option<Seq<char>>,
    now: i64,
    turn_id: Seq<char>,
)
    requires
        thread.get("turns"@) == Some(Tree::Array(turns)),
        0 <= at < turns.len(),
        turns[at].get("status"@) == Some(Tree::Str("inProgress"@)),
        turns[at].get("id"@) == Some(Tree::Str(turn_id)),
        forall|i: int| 0 <= i < at ==> (#[trigger] turns[i]).get("status"@) != Some(Tree::Str("inProgress"@)),
    ensures
        ({
            let list = turn_synced(conversation_id, thread, active_turn, now);
            &&& list.len() == 2
            &&& list[0] == (ActionView::SetExternalTurn { conversation_id, turn_id })
            &&& list[1] == (ActionView::SetLiveState {
                conversation_id,
                live_state: if thread.get_in("status"@, "type"@) == Some(Tree::Str("notLoaded"@)) {
                    "stored_only"@
                } else {
                    "live"@
                },
                updated_at: now,
            })
        }),
{
    assert forall|i: int| 0 <= i < at implies (#[trigger] turns[i]).str_at("status"@) != Some("inProgress"@) by {
        assert(turns[i].get("status"@) != Some(Tree::Str("inProgress"@)));
    }
    lemma_first_in_progress(turns, at);
}

/// Where no turn of a thread is in progress, the turn that ran in the conversation is over, unless the
/// thread is active; and the state of the binding says whether the thread is loaded.
pub proof fn a_turn_is_over_when_its_thread_is(
    conversation_id: Seq<char>,
    thread: Tree,
    turns: Seq<Tree>,
    active_turn: Option<Seq<char>>,
    now: i64,
)
    requires
        thread.get("turns"@) matches Some(Tree::Array(listed)) ==> turns == listed,
        forall|i: int| 0 <= i < turns.len() ==> (#[trigger] turns[i]).get("status"@) != Some(Tree::Str("inProgress"@)),
    ensures
        ({
            let list = turn_synced(conversation_id, thread, active_turn, now);
            let active = thread.get_in("status"@, "type"@) == Some(Tree::Str("active"@));
            &&& list.last() == (ActionView::SetLiveState {
                conversation_id,
                live_state: if thread.get_in("status"@, "type"@) == Some(Tree::Str("notLoaded"@)) {
                    "stored_only"@
                } else {
                    "live"@
                },
                updated_at: now,
            })
            &&& active || active_turn is None ==> list.len() == 1
            &&& !active ==> (active_turn matches Some(turn_id) ==> list.len() == 2 && list[0] == (
            ActionView::ClearExternalTurn { conversation_id, turn_id }))
        }),
{
    assert forall|i: int| 0 <= i < turns.len() implies (#[trigger] turns[i]).str_at("status"@) != Some("inProgress"@) by {
        assert(turns[i].get("status"@) != Some(Tree::Str("inProgress"@)));
    }
    lemma_none_in_progress(turns);
}

proof fn lemma_extra_names()
    ensures
        "workspace"@ != "custom_workspace"@,
        "workspace"@ != "backend"@,
        "workspace"@ != "agent_id"@,
        "workspace"@ != "agent_source"@,
        "workspace"@ != "codex_thread_id"@,
        "workspace"@ != "codex_source"@,
        "workspace"@ != "codex_live_state"@,
        "workspace"@ != "codex_watched_root"@,
        "workspace"@ != "codex_thread_role"@,
        "workspace"@ != "codex_parent_thread_id"@,
        "workspace"@ != "codex_parent_conversation_id"@,
        "workspace"@ != "codex_subagent_kind"@,
        "workspace"@ != "codex_agent_path"@,
        "workspace"@ != "codex_agent_nickname"@,
        "workspace"@ != "codex_agent_role"@,
        "workspace"@ != "codex_agent_depth"@,
        "workspace"@ != "codex_can_accept_direct_input"@,
        "workspace"@ != "codex_auto_title"@,
        "custom_workspace"@ != "backend"@,
        "custom_workspace"@ != "agent_id"@,
        "custom_workspace"@ != "agent_source"@,
        "custom_workspace"@ != "codex_thread_id"@,
        "custom_workspace"@ != "codex_source"@,
        "custom_workspace"@ != "codex_live_state"@,
        "custom_workspace"@ != "codex_watched_root"@,
        "custom_workspace"@ != "codex_thread_role"@,
        "custom_workspace"@ != "codex_parent_thread_id"@,
        "custom_workspace"@ != "codex_parent_conversation_id"@,
        "custom_workspace"@ != "codex_subagent_kind"@,
        "custom_workspace"@ != "codex_agent_path"@,
        "custom_workspace"@ != "codex_agent_nickname"@,
        "custom_workspace"@ != "codex_agent_role"@,
        "custom_workspace"@ != "codex_agent_depth"@,
        "custom_workspace"@ != "codex_can_accept_direct_input"@,
        "custom_workspace"@ != "codex_auto_title"@,
        "backend"@ != "agent_id"@,
        "backend"@ != "agent_source"@,
        "backend"@ != "codex_thread_id"@,
        "backend"@ != "codex_source"@,
        "backend"@ != "codex_live_state"@,
        "backend"@ != "codex_watched_root"@,
        "backend"@ != "codex_thread_role"@,
        "backend"@ != "codex_parent_thread_id"@,
        "backend"@ != "codex_parent_conversation_id"@,
        "backend"@ != "codex_subagent_kind"@,
        "backend"@ != "codex_agent_path"@,
        "backend"@ != "codex_agent_nickname"@,
        "backend"@ != "codex_agent_role"@,
        "backend"@ != "codex_agent_depth"@,
        "backend"@ != "codex_can_accept_direct_input"@,
        "backend"@ != "codex_auto_title"@,
        "agent_id"@ != "agent_source"@,
        "agent_id"@ != "codex_thread_id"@,
        "agent_id"@ != "codex_source"@,
        "agent_id"@ != "codex_live_state"@,
        "agent_id"@ != "codex_watched_root"@,
        "agent_id"@ != "codex_thread_role"@,
        "agent_id"@ != "codex_parent_thread_id"@,
        "agent_id"@ != "codex_parent_conversation_id"@,
        "agent_id"@ != "codex_subagent_kind"@,
        "agent_id"@ != "codex_agent_path"@,
        "agent_id"@ != "codex_agent_nickname"@,
        "agent_id"@ != "codex_agent_role"@,
        "agent_id"@ != "codex_agent_depth"@,
        "agent_id"@ != "codex_can_accept_direct_input"@,
        "agent_id"@ != "codex_auto_title"@,
        "agent_source"@ != "codex_thread_id"@,
        "agent_source"@ != "codex_source"@,
        "agent_source"@ != "codex_live_state"@,
        "agent_source"@ != "codex_watched_root"@,
        "agent_source"@ != "codex_thread_role"@,
        "agent_source"@ != "codex_parent_thread_id"@,
        "agent_source"@ != "codex_parent_conversation_id"@,
        "agent_source"@ != "codex_subagent_kind"@,
        "agent_source"@ != "codex_agent_path"@,
        "agent_source"@ != "codex_agent_nickname"@,
        "agent_source"@ != "codex_agent_role"@,
        "agent_source"@ != "codex_agent_depth"@,
        "agent_source"@ != "codex_can_accept_direct_input"@,
        "agent_source"@ != "codex_auto_title"@,
        "codex_thread_id"@ != "codex_source"@,
        "codex_thread_id"@ != "codex_live_state"@,
        "codex_thread_id"@ != "codex_watched_root"@,
        "codex_thread_id"@ != "codex_thread_role"@,
        "codex_thread_id"@ != "codex_parent_thread_id"@,
        "codex_thread_id"@ != "codex_parent_conversation_id"@,
        "codex_thread_id"@ != "codex_subagent_kind"@,
        "codex_thread_id"@ != "codex_agent_path"@,
        "codex_thread_id"@ != "codex_agent_nickname"@,
        "codex_thread_id"@ != "codex_agent_role"@,
        "codex_thread_id"@ != "codex_agent_depth"@,
        "codex_thread_id"@ != "codex_can_accept_direct_input"@,
        "codex_thread_id"@ != "codex_auto_title"@,
        "codex_source"@ != "codex_live_state"@,
        "codex_source"@ != "codex_watched_root"@,
        "codex_source"@ != "codex_thread_role"@,
        "codex_source"@ != "codex_parent_thread_id"@,
        "codex_source"@ != "codex_parent_conversation_id"@,
        "codex_source"@ != "codex_subagent_kind"@,
        "codex_source"@ != "codex_agent_path"@,
        "codex_source"@ != "codex_agent_nickname"@,
        "codex_source"@ != "codex_agent_role"@,
        "codex_source"@ != "codex_agent_depth"@,
        "codex_source"@ != "codex_can_accept_direct_input"@,
        "codex_source"@ != "codex_auto_title"@,
        "codex_live_state"@ != "codex_watched_root"@,
        "codex_live_state"@ != "codex_thread_role"@,
        "codex_live_state"@ != "codex_parent_thread_id"@,
        "codex_live_state"@ != "codex_parent_conversation_id"@,
        "codex_live_state"@ != "codex_subagent_kind"@,
        "codex_live_state"@ != "codex_agent_path"@,
        "codex_live_state"@ != "codex_agent_nickname"@,
        "codex_live_state"@ != "codex_agent_role"@,
        "codex_live_state"@ != "codex_agent_depth"@,
        "codex_live_state"@ != "codex_can_accept_direct_input"@,
        "codex_live_state"@ != "codex_auto_title"@,
        "codex_watched_root"@ != "codex_thread_role"@,
        "codex_watched_root"@ != "codex_parent_thread_id"@,
        "codex_watched_root"@ != "codex_parent_conversation_id"@,
        "codex_watched_root"@ != "codex_subagent_kind"@,
        "codex_watched_root"@ != "codex_agent_path"@,
        "codex_watched_root"@ != "codex_agent_nickname"@,
        "codex_watched_root"@ != "codex_agent_role"@,
        "codex_watched_root"@ != "codex_agent_depth"@,
        "codex_watched_root"@ != "codex_can_accept_direct_input"@,
        "codex_watched_root"@ != "codex_auto_title"@,
        "codex_thread_role"@ != "codex_parent_thread_id"@,
        "codex_thread_role"@ != "codex_parent_conversation_id"@,
        "codex_thread_role"@ != "codex_subagent_kind"@,
        "codex_thread_role"@ != "codex_agent_path"@,
        "codex_thread_role"@ != "codex_agent_nickname"@,
        "codex_thread_role"@ != "codex_agent_role"@,
        "codex_thread_role"@ != "codex_agent_depth"@,
        "codex_thread_role"@ != "codex_can_accept_direct_input"@,
        "codex_thread_role"@ != "codex_auto_title"@,
        "codex_parent_thread_id"@ != "codex_parent_conversation_id"@,
        "codex_parent_thread_id"@ != "codex_subagent_kind"@,
        "codex_parent_thread_id"@ != "codex_agent_path"@,
        "codex_parent_thread_id"@ != "codex_agent_nickname"@,
        "codex_parent_thread_id"@ != "codex_agent_role"@,
        "codex_parent_thread_id"@ != "codex_agent_depth"@,
        "codex_parent_thread_id"@ != "codex_can_accept_direct_input"@,
        "codex_parent_thread_id"@ != "codex_auto_title"@,
        "codex_parent_conversation_id"@ != "codex_subagent_kind"@,
        "codex_parent_conversation_id"@ != "codex_agent_path"@,
        "codex_parent_conversation_id"@ != "codex_agent_nickname"@,
        "codex_parent_conversation_id"@ != "codex_agent_role"@,
        "codex_parent_conversation_id"@ != "codex_agent_depth"@,
        "codex_parent_conversation_id"@ != "codex_can_accept_direct_input"@,
        "codex_parent_conversation_id"@ != "codex_auto_title"@,
        "codex_subagent_kind"@ != "codex_agent_path"@,
        "codex_subagent_kind"@ != "codex_agent_nickname"@,
        "codex_subagent_kind"@ != "codex_agent_role"@,
        "codex_subagent_kind"@ != "codex_agent_depth"@,
        "codex_subagent_kind"@ != "codex_can_accept_direct_input"@,
        "codex_subagent_kind"@ != "codex_auto_title"@,
        "codex_agent_path"@ != "codex_agent_nickname"@,
        "codex_agent_path"@ != "codex_agent_role"@,
        "codex_agent_path"@ != "codex_agent_depth"@,
        "codex_agent_path"@ != "codex_can_accept_direct_input"@,
        "codex_agent_path"@ != "codex_auto_title"@,
        "codex_agent_nickname"@ != "codex_agent_role"@,
        "codex_agent_nickname"@ != "codex_agent_depth"@,
        "codex_agent_nickname"@ != "codex_can_accept_direct_input"@,
        "codex_agent_nickname"@ != "codex_auto_title"@,
        "codex_agent_role"@ != "codex_agent_depth"@,
        "codex_agent_role"@ != "codex_can_accept_direct_input"@,
        "codex_agent_role"@ != "codex_auto_title"@,
        "codex_agent_depth"@ != "codex_can_accept_direct_input"@,
        "codex_agent_depth"@ != "codex_auto_title"@,
        "codex_can_accept_direct_input"@ != "codex_auto_title"@,
{
    reveal_strlit("workspace");
    reveal_strlit("custom_workspace");
    reveal_strlit("backend");
    reveal_strlit("agent_id");
    reveal_strlit("agent_source");
    reveal_strlit("codex_thread_id");
    reveal_strlit("codex_source");
    reveal_strlit("codex_live_state");
    reveal_strlit("codex_watched_root");
    reveal_strlit("codex_thread_role");
    reveal_strlit("codex_parent_thread_id");
    reveal_strlit("codex_parent_conversation_id");
    reveal_strlit("codex_subagent_kind");
    reveal_strlit("codex_agent_path");
    reveal_strlit("codex_agent_nickname");
    reveal_strlit("codex_agent_role");
    reveal_strlit("codex_agent_depth");
    reveal_strlit("codex_can_accept_direct_input");
    reveal_strlit("codex_auto_title");
    assert("workspace"@.len() != "custom_workspace"@.len());
    assert("workspace"@.len() != "backend"@.len());
    assert("workspace"@.len() != "agent_id"@.len());
    assert("workspace"@.len() != "agent_source"@.len());
    assert("workspace"@.len() != "codex_thread_id"@.len());
    assert("workspace"@.len() != "codex_source"@.len());
    assert("workspace"@.len() != "codex_live_state"@.len());
    assert("workspace"@.len() != "codex_watched_root"@.len());
    assert("workspace"@.len() != "codex_thread_role"@.len());
    assert("workspace"@.len() != "codex_parent_thread_id"@.len());
    assert("workspace"@.len() != "codex_parent_conversation_id"@.len());
    assert("workspace"@.len() != "codex_subagent_kind"@.len());
    assert("workspace"@.len() != "codex_agent_path"@.len());
    assert("workspace"@.len() != "codex_agent_nickname"@.len());
    assert("workspace"@.len() != "codex_agent_role"@.len());
    assert("workspace"@.len() != "codex_agent_depth"@.len());
    assert("workspace"@.len() != "codex_can_accept_direct_input"@.len());
    assert("workspace"@.len() != "codex_auto_title"@.len());
    assert("custom_workspace"@.len() != "backend"@.len());
    assert("custom_workspace"@.len() != "agent_id"@.len());
    assert("custom_workspace"@.len() != "agent_source"@.len());
    assert("custom_workspace"@.len() != "codex_thread_id"@.len());
    assert("custom_workspace"@.len() != "codex_source"@.len());
    assert("custom_workspace"@[1] != "codex_live_state"@[1]);
    assert("custom_workspace"@.len() != "codex_watched_root"@.len());
    assert("custom_workspace"@.len() != "codex_thread_role"@.len());
    assert("custom_workspace"@.len() != "codex_parent_thread_id"@.len());
    assert("custom_workspace"@.len() != "codex_parent_conversation_id"@.len());
    assert("custom_workspace"@.len() != "codex_subagent_kind"@.len());
    assert("custom_workspace"@[1] != "codex_agent_path"@[1]);
    assert("custom_workspace"@.len() != "codex_agent_nickname"@.len());
    assert("custom_workspace"@[1] != "codex_agent_role"@[1]);
    assert("custom_workspace"@.len() != "codex_agent_depth"@.len());
    assert("custom_workspace"@.len() != "codex_can_accept_direct_input"@.len());
    assert("custom_workspace"@[1] != "codex_auto_title"@[1]);
    assert("backend"@.len() != "agent_id"@.len());
    assert("backend"@.len() != "agent_source"@.len());
    assert("backend"@.len() != "codex_thread_id"@.len());
    assert("backend"@.len() != "codex_source"@.len());
    assert("backend"@.len() != "codex_live_state"@.len());
    assert("backend"@.len() != "codex_watched_root"@.len());
    assert("backend"@.len() != "codex_thread_role"@.len());
    assert("backend"@.len() != "codex_parent_thread_id"@.len());
    assert("backend"@.len() != "codex_parent_conversation_id"@.len());
    assert("backend"@.len() != "codex_subagent_kind"@.len());
    assert("backend"@.len() != "codex_agent_path"@.len());
    assert("backend"@.len() != "codex_agent_nickname"@.len());
    assert("backend"@.len() != "codex_agent_role"@.len());
    assert("backend"@.len() != "codex_agent_depth"@.len());
    assert("backend"@.len() != "codex_can_accept_direct_input"@.len());
    assert("backend"@.len() != "codex_auto_title"@.len());
    assert("agent_id"@.len() != "agent_source"@.len());
    assert("agent_id"@.len() != "codex_thread_id"@.len());
    assert("agent_id"@.len() != "codex_source"@.len());
    assert("agent_id"@.len() != "codex_live_state"@.len());
    assert("agent_id"@.len() != "codex_watched_root"@.len());
    assert("agent_id"@.len() != "codex_thread_role"@.len());
    assert("agent_id"@.len() != "codex_parent_thread_id"@.len());
    assert("agent_id"@.len() != "codex_parent_conversation_id"@.len());
    assert("agent_id"@.len() != "codex_subagent_kind"@.len());
    assert("agent_id"@.len() != "codex_agent_path"@.len());
    assert("agent_id"@.len() != "codex_agent_nickname"@.len());
    assert("agent_id"@.len() != "codex_agent_role"@.len());
    assert("agent_id"@.len() != "codex_agent_depth"@.len());
    assert("agent_id"@.len() != "codex_can_accept_direct_input"@.len());
    assert("agent_id"@.len() != "codex_auto_title"@.len());
    assert("agent_source"@.len() != "codex_thread_id"@.len());
    assert("agent_source"@[0] != "codex_source"@[0]);
    assert("agent_source"@.len() != "codex_live_state"@.len());
    assert("agent_source"@.len() != "codex_watched_root"@.len());
    assert("agent_source"@.len() != "codex_thread_role"@.len());
    assert("agent_source"@.len() != "codex_parent_thread_id"@.len());
    assert("agent_source"@.len() != "codex_parent_conversation_id"@.len());
    assert("agent_source"@.len() != "codex_subagent_kind"@.len());
    assert("agent_source"@.len() != "codex_agent_path"@.len());
    assert("agent_source"@.len() != "codex_agent_nickname"@.len());
    assert("agent_source"@.len() != "codex_agent_role"@.len());
    assert("agent_source"@.len() != "codex_agent_depth"@.len());
    assert("agent_source"@.len() != "codex_can_accept_direct_input"@.len());
    assert("agent_source"@.len() != "codex_auto_title"@.len());
    assert("codex_thread_id"@.len() != "codex_source"@.len());
    assert("codex_thread_id"@.len() != "codex_live_state"@.len());
    assert("codex_thread_id"@.len() != "codex_watched_root"@.len());
    assert("codex_thread_id"@.len() != "codex_thread_role"@.len());
    assert("codex_thread_id"@.len() != "codex_parent_thread_id"@.len());
    assert("codex_thread_id"@.len() != "codex_parent_conversation_id"@.len());
    assert("codex_thread_id"@.len() != "codex_subagent_kind"@.len());
    assert("codex_thread_id"@.len() != "codex_agent_path"@.len());
    assert("codex_thread_id"@.len() != "codex_agent_nickname"@.len());
    assert("codex_thread_id"@.len() != "codex_agent_role"@.len());
    assert("codex_thread_id"@.len() != "codex_agent_depth"@.len());
    assert("codex_thread_id"@.len() != "codex_can_accept_direct_input"@.len());
    assert("codex_thread_id"@.len() != "codex_auto_title"@.len());
    assert("codex_source"@.len() != "codex_live_state"@.len());
    assert("codex_source"@.len() != "codex_watched_root"@.len());
    assert("codex_source"@.len() != "codex_thread_role"@.len());
    assert("codex_source"@.len() != "codex_parent_thread_id"@.len());
    assert("codex_source"@.len() != "codex_parent_conversation_id"@.len());
    assert("codex_source"@.len() != "codex_subagent_kind"@.len());
    assert("codex_source"@.len() != "codex_agent_path"@.len());
    assert("codex_source"@.len() != "codex_agent_nickname"@.len());
    assert("codex_source"@.len() != "codex_agent_role"@.len());
    assert("codex_source"@.len() != "codex_agent_depth"@.len());
    assert("codex_source"@.len() != "codex_can_accept_direct_input"@.len());
    assert("codex_source"@.len() != "codex_auto_title"@.len());
    assert("codex_live_state"@.len() != "codex_watched_root"@.len());
    assert("codex_live_state"@.len() != "codex_thread_role"@.len());
    assert("codex_live_state"@.len() != "codex_parent_thread_id"@.len());
    assert("codex_live_state"@.len() != "codex_parent_conversation_id"@.len());
    assert("codex_live_state"@.len() != "codex_subagent_kind"@.len());
    assert("codex_live_state"@[6] != "codex_agent_path"@[6]);
    assert("codex_live_state"@.len() != "codex_agent_nickname"@.len());
    assert("codex_live_state"@[6] != "codex_agent_role"@[6]);
    assert("codex_live_state"@.len() != "codex_agent_depth"@.len());
    assert("codex_live_state"@.len() != "codex_can_accept_direct_input"@.len());
    assert("codex_live_state"@[6] != "codex_auto_title"@[6]);
    assert("codex_watched_root"@.len() != "codex_thread_role"@.len());
    assert("codex_watched_root"@.len() != "codex_parent_thread_id"@.len());
    assert("codex_watched_root"@.len() != "codex_parent_conversation_id"@.len());
    assert("codex_watched_root"@.len() != "codex_subagent_kind"@.len());
    assert("codex_watched_root"@.len() != "codex_agent_path"@.len());
    assert("codex_watched_root"@.len() != "codex_agent_nickname"@.len());
    assert("codex_watched_root"@.len() != "codex_agent_role"@.len());
    assert("codex_watched_root"@.len() != "codex_agent_depth"@.len());
    assert("codex_watched_root"@.len() != "codex_can_accept_direct_input"@.len());
    assert("codex_watched_root"@.len() != "codex_auto_title"@.len());
    assert("codex_thread_role"@.len() != "codex_parent_thread_id"@.len());
    assert("codex_thread_role"@.len() != "codex_parent_conversation_id"@.len());
    assert("codex_thread_role"@.len() != "codex_subagent_kind"@.len());
    assert("codex_thread_role"@.len() != "codex_agent_path"@.len());
    assert("codex_thread_role"@.len() != "codex_agent_nickname"@.len());
    assert("codex_thread_role"@.len() != "codex_agent_role"@.len());
    assert("codex_thread_role"@[6] != "codex_agent_depth"@[6]);
    assert("codex_thread_role"@.len() != "codex_can_accept_direct_input"@.len());
    assert("codex_thread_role"@.len() != "codex_auto_title"@.len());
    assert("codex_parent_thread_id"@.len() != "codex_parent_conversation_id"@.len());
    assert("codex_parent_thread_id"@.len() != "codex_subagent_kind"@.len());
    assert("codex_parent_thread_id"@.len() != "codex_agent_path"@.len());
    assert("codex_parent_thread_id"@.len() != "codex_agent_nickname"@.len());
    assert("codex_parent_thread_id"@.len() != "codex_agent_role"@.len());
    assert("codex_parent_thread_id"@.len() != "codex_agent_depth"@.len());
    assert("codex_parent_thread_id"@.len() != "codex_can_accept_direct_input"@.len());
    assert("codex_parent_thread_id"@.len() != "codex_auto_title"@.len());
    assert("codex_parent_conversation_id"@.len() != "codex_subagent_kind"@.len());
    assert("codex_parent_conversation_id"@.len() != "codex_agent_path"@.len());
    assert("codex_parent_conversation_id"@.len() != "codex_agent_nickname"@.len());
    assert("codex_parent_conversation_id"@.len() != "codex_agent_role"@.len());
    assert("codex_parent_conversation_id"@.len() != "codex_agent_depth"@.len());
    assert("codex_parent_conversation_id"@.len() != "codex_can_accept_direct_input"@.len());
    assert("codex_parent_conversation_id"@.len() != "codex_auto_title"@.len());
    assert("codex_subagent_kind"@.len() != "codex_agent_path"@.len());
    assert("codex_subagent_kind"@.len() != "codex_agent_nickname"@.len());
    assert("codex_subagent_kind"@.len() != "codex_agent_role"@.len());
    assert("codex_subagent_kind"@.len() != "codex_agent_depth"@.len());
    assert("codex_subagent_kind"@.len() != "codex_can_accept_direct_input"@.len());
    assert("codex_subagent_kind"@.len() != "codex_auto_title"@.len());
    assert("codex_agent_path"@.len() != "codex_agent_nickname"@.len());
    assert("codex_agent_path"@[12] != "codex_agent_role"@[12]);
    assert("codex_agent_path"@.len() != "codex_agent_depth"@.len());
    assert("codex_agent_path"@.len() != "codex_can_accept_direct_input"@.len());
    assert("codex_agent_path"@[7] != "codex_auto_title"@[7]);
    assert("codex_agent_nickname"@.len() != "codex_agent_role"@.len());
    assert("codex_agent_nickname"@.len() != "codex_agent_depth"@.len());
    assert("codex_agent_nickname"@.len() != "codex_can_accept_direct_input"@.len());
    assert("codex_agent_nickname"@.len() != "codex_auto_title"@.len());
    assert("codex_agent_role"@.len() != "codex_agent_depth"@.len());
    assert("codex_agent_role"@.len() != "codex_can_accept_direct_input"@.len());
    assert("codex_agent_role"@[7] != "codex_auto_title"@[7]);
    assert("codex_agent_depth"@.len() != "codex_can_accept_direct_input"@.len());
    assert("codex_agent_depth"@.len() != "codex_auto_title"@.len());
    assert("codex_can_accept_direct_input"@.len() != "codex_auto_title"@.len());
}

/// The conversation that is made for a thread is the user's of the workspace, with the id that it is
/// given. It runs where the thread is active and is finished otherwise, and is as old as the thread.
pub proof fn a_discovered_conversation_is_that_of_its_thread(
    id: Seq<char>,
    thread: Tree,
    watch: WorkspaceView,
    parent_conversation_id: Option<Seq<char>>,
    now: i64,
    created: i64,
    updated: i64,
)
    ensures
        ({
            let row = discovered(id, thread, watch, parent_conversation_id, now);
            &&& row.id == id
            &&& row.user_id == watch.user_id
            &&& row.conversation_type == "codex-app-server"@
            &&& row.source == Some("aionui"@)
            &&& row.model is None && row.channel_chat_id is None && !row.pinned && row.pinned_at is None
            &&& thread.get_in("status"@, "type"@) == Some(Tree::Str("active"@)) ==> row.status == Some("running"@)
            &&& thread.get_in("status"@, "type"@) != Some(Tree::Str("active"@)) ==> row.status == Some("finished"@)
            &&& thread.get("createdAt"@) == Some(Tree::Int(created)) && i64::MIN <= created * 1000 <= i64::MAX
                ==> row.created_at == created * 1000
            &&& !(thread.get("createdAt"@) matches Some(Tree::Int(_))) ==> row.created_at == now
            &&& thread.get("updatedAt"@) == Some(Tree::Int(updated)) && i64::MIN <= updated * 1000 <= i64::MAX
                ==> row.updated_at == updated * 1000
            &&& !(thread.get("updatedAt"@) matches Some(Tree::Int(_))) ==> row.updated_at == now
            &&& row.extra == displayed(discovered_extra(thread, watch, parent_conversation_id))
        }),
{
}

/// A conversation that is made for a thread keeps which thread that is, where it runs and in which
/// workspace it was found, whether it is loaded, and what it says of its place among the threads; the
/// name follows the thread.
pub proof fn a_discovered_conversation_keeps_its_thread(
    thread: Tree,
    watch: WorkspaceView,
    parent_conversation_id: Option<Seq<char>>,
    text: Seq<char>,
)
    ensures
        ({
            let extra = discovered_extra(thread, watch, parent_conversation_id);
            let metadata = metadata_of(thread);
            &&& thread.get("cwd"@) == Some(Tree::Str(text)) ==> extra.get("workspace"@) == Some(Tree::Str(text))
            &&& !(thread.get("cwd"@) matches Some(Tree::Str(_))) ==> extra.get("workspace"@) == Some(
                Tree::Str(watch.root_path),
            )
            &&& thread.get("id"@) == Some(Tree::Str(text)) ==> extra.get("codex_thread_id"@) == Some(Tree::Str(text))
            &&& !(thread.get("id"@) matches Some(Tree::Str(_))) ==> extra.get("codex_thread_id"@) == Some(Tree::Str(""@))
            &&& extra.get("custom_workspace"@) == Some(Tree::Bool(true))
            &&& extra.get("backend"@) == Some(Tree::Str("codex-native"@))
            &&& extra.get("agent_id"@) == Some(Tree::Str("c0d3a55e"@))
            &&& extra.get("agent_source"@) == Some(Tree::Str("builtin"@))
            &&& extra.get("codex_watched_root"@) == Some(Tree::Str(watch.root_path))
            &&& extra.get("codex_source"@) == Some(Tree::Str(name_of_source(thread.get("source"@))))
            &&& thread.get_in("status"@, "type"@) == Some(Tree::Str("notLoaded"@)) ==> extra.get("codex_live_state"@)
                == Some(Tree::Str("stored_only"@))
            &&& thread.get_in("status"@, "type"@) != Some(Tree::Str("notLoaded"@)) ==> extra.get("codex_live_state"@)
                == Some(Tree::Str("live"@))
            &&& extra.get("codex_auto_title"@) == Some(Tree::Bool(true))
            &&& extra.get("codex_thread_role"@) == Some(Tree::Str(metadata.role))
            &&& is_string_or_null(extra.get("codex_parent_thread_id"@), metadata.parent_thread_id)
            &&& is_string_or_null(extra.get("codex_parent_conversation_id"@), parent_conversation_id)
            &&& is_string_or_null(extra.get("codex_subagent_kind"@), metadata.kind)
            &&& is_string_or_null(extra.get("codex_agent_path"@), metadata.agent_path)
            &&& is_string_or_null(extra.get("codex_agent_nickname"@), metadata.agent_nickname)
            &&& is_string_or_null(extra.get("codex_agent_role"@), metadata.agent_role)
            &&& metadata.depth matches Some(depth) ==> extra.get("codex_agent_depth"@) == Some(Tree::Int(depth))
            &&& metadata.depth is None ==> extra.get("codex_agent_depth"@) == Some(Tree::Null)
            &&& metadata.can_accept_direct_input matches Some(b) ==> extra.get("codex_can_accept_direct_input"@) == Some(
                Tree::Bool(b),
            )
            &&& metadata.can_accept_direct_input is None ==> extra.get("codex_can_accept_direct_input"@) == Some(
                Tree::Null,
            )
        }),
{
    lemma_extra_names();
}

/// The member is the string, or null where there is none.
pub open spec fn is_string_or_null(member: Option<Tree>, text: Option<Seq<char>>) -> bool {
    match text {
        Some(text) => member == Some(Tree::Str(text)),
        None => member == Some(Tree::Null),
    }
}

/// The sub-agents of a thread of its own are linked to its conversation; those of the conversation that
/// a sub-agent belongs to are counted; and a sub-agent without one asks for nothing.
pub proof fn a_family_is_kept_together(role: Seq<char>, binding: BindingView, parent: Option<Seq<char>>)
    ensures
        role == "root"@ ==> family(role, binding, parent) == seq![ActionView::LinkSubagents(binding)],
        role != "root"@ ==> (parent matches Some(id) ==> family(role, binding, parent) == seq![
            ActionView::CountSubagents { conversation_id: id },
        ]),
        role != "root"@ && parent is None ==> family(role, binding, parent).len() == 0,
{
}

/// The binding that a user has for a thread is one of the rows and the user's, and one is found
/// wherever there is one.
pub proof fn a_binding_is_found_by_its_user(rows: Seq<BindingView>, user_id: Seq<char>)
    ensures
        match first_of_user(rows, user_id) {
            Some(row) => rows.contains(row) && row.user_id == user_id,
            None => forall|i: int| 0 <= i < rows.len() ==> (#[trigger] rows[i]).user_id != user_id,
        },
{
    lemma_found(rows, user_id);
}

} // verus!
