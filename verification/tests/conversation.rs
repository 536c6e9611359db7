//! Conversations that show the threads of an app-server, with everything stored in memory.
use codex_native::actions::Action;
use codex_native::bindings::store_binding;
use codex_native::buffers::Streams;
use codex_native::confirmation::pending_request_to_confirmation;
use codex_native::discovery::{Discovery, Fetch, FetchedPage, Reply};
use codex_native::history::{
    history_page_fits, history_start, needs_turn_summaries, project_thread_history, sync_history_page, thread_history_fits,
    HistoryPage, HistoryStep,
};
use codex_native::items::project_item;
use codex_native::json::Json;
use codex_native::metadata::sync_conversation_thread_metadata;
use codex_native::paths::workspace_matches;
use codex_native::projection::{notification_route, project_notification, Route};
use codex_native::protocol::{CodexAppServerError, CodexPendingRequest};
use codex_native::rows::{
    binding_of_user, CodexThreadBindingRow, CodexWatchedWorkspaceRow, ConversationRow, MessageRow,
};
use codex_native::subagents::{are_related, mark_binding_stored_only, recompute_subagent_summary, relink_subagent};
use codex_native::sync::{
    after_discovery, create_discovered_conversation, ensure_binding_for_workspace, sync_binding_thread_state,
    sync_external_turn, thread_state_time_fits, BindingStep,
};
use codex_native::thread::{thread_metadata, thread_place, thread_times_fit, FetchedThread};
use codex_native::wire::parse;

const HOME: &str = "/home/taichuy/.codex";
const NOW: i64 = 1_000;

fn json(text: &str) -> Json {
    parse(text).unwrap()
}

struct World {
    workspaces: Vec<CodexWatchedWorkspaceRow>,
    bindings: Vec<CodexThreadBindingRow>,
    conversations: Vec<ConversationRow>,
    messages: Vec<MessageRow>,
    turns: Vec<(String, String)>,
    events: Vec<(String, Json)>,
    delivered: Vec<String>,
    streams: Streams,
}

impl World {
    fn new(workspaces: Vec<CodexWatchedWorkspaceRow>) -> World {
        World {
            workspaces,
            bindings: vec![],
            conversations: vec![],
            messages: vec![],
            turns: vec![],
            events: vec![],
            delivered: vec![],
            streams: Streams::new(),
        }
    }

    fn conversation(&self, id: &str) -> Option<usize> {
        self.conversations.iter().position(|row| row.id == id)
    }

    fn bindings_of_thread(&self, thread_id: &str) -> Vec<CodexThreadBindingRow> {
        self.bindings.iter().filter(|row| row.thread_id == thread_id).cloned().collect()
    }

    fn perform(&mut self, actions: Vec<Action>) {
        for action in actions {
            match action {
                Action::SetExternalTurn { conversation_id, turn_id } => {
                    self.turns.retain(|turn| turn.0 != conversation_id);
                    self.turns.push((conversation_id, turn_id));
                }
                Action::ClearExternalTurn { conversation_id, turn_id } => {
                    self.turns.retain(|turn| *turn != (conversation_id.clone(), turn_id.clone()));
                }
                Action::SetLiveState {
                    conversation_id,
                    live_state,
                    updated_at,
                } => {
                    for row in &mut self.bindings {
                        if row.conversation_id == conversation_id {
                            row.set_live_state(&live_state, updated_at);
                        }
                    }
                }
                Action::StoreBinding(row) => {
                    store_binding(&mut self.bindings, &row);
                }
                Action::UpdateConversation { conversation_id, update } => {
                    if let Some(place) = self.conversation(&conversation_id) {
                        self.conversations[place].update(update);
                    }
                }
                Action::StoreMessage(row) => {
                    self.messages
                        .retain(|kept| kept.id != row.id || kept.conversation_id != row.conversation_id);
                    self.messages.push(row);
                }
                Action::Broadcast { name, data } => self.events.push((name, data)),
                Action::DeliverPending { conversation_id, .. } => self.delivered.push(conversation_id),
                Action::CountSubagents { conversation_id } => self.count(&conversation_id),
                Action::LinkSubagents(parent) => self.link(&parent),
            }
        }
    }

    fn sync_state(&mut self, conversation_id: &str, thread: &Json) {
        let active = self.turns.iter().find(|turn| turn.0 == conversation_id).map(|turn| turn.1.clone());
        let actions = sync_external_turn(conversation_id, thread, active.as_deref(), NOW);
        self.perform(actions);
        if let Some(place) = self.conversation(conversation_id) {
            assert!(thread_state_time_fits(thread));
            let actions = sync_binding_thread_state(&self.conversations[place], thread, NOW).unwrap();
            self.perform(actions);
        }
    }

    fn count(&mut self, conversation_id: &str) {
        let Some(place) = self.conversation(conversation_id) else {
            return;
        };
        let children: Vec<ConversationRow> = self
            .conversations
            .iter()
            .filter(|row| parse(&row.extra).unwrap().str_at("codex_parent_conversation_id") == Some(conversation_id))
            .map(copy)
            .collect();
        let actions = recompute_subagent_summary(&self.conversations[place], &children).unwrap();
        self.perform(actions);
    }

    fn link(&mut self, parent: &CodexThreadBindingRow) {
        for child in self.bindings.clone() {
            if !are_related(parent, &child) {
                continue;
            }
            if let Some(place) = self.conversation(&child.conversation_id) {
                let actions = relink_subagent(parent, &child, &self.conversations[place]);
                self.perform(actions);
            }
        }
        self.count(&parent.conversation_id);
    }

    fn ensure_binding(&mut self, thread: &Json, workspace: &CodexWatchedWorkspaceRow) -> Option<CodexThreadBindingRow> {
        let (thread_id, cwd) = thread_place(thread).unwrap();
        let parent = thread_metadata(thread)
            .parent_thread_id
            .and_then(|id| binding_of_user(&self.bindings_of_thread(&id), &workspace.user_id))
            .map(|row| row.conversation_id);
        match ensure_binding_for_workspace(&self.bindings_of_thread(&thread_id), workspace, &cwd) {
            BindingStep::Bound(binding) => {
                if let Some(place) = self.conversation(&binding.conversation_id) {
                    let conversation = &self.conversations[place];
                    let actions =
                        sync_conversation_thread_metadata(conversation, &binding, thread, parent.as_deref(), NOW).unwrap();
                    self.perform(actions);
                }
                Some(binding)
            }
            BindingStep::Outside => None,
            BindingStep::Create => {
                assert!(thread_times_fit(thread));
                let id = format!("conversation-{}", self.conversations.len() + 1);
                let (row, binding) =
                    create_discovered_conversation(&id, HOME, thread, workspace, parent.as_deref(), NOW);
                self.conversations.push(row);
                let saved = store_binding(&mut self.bindings, &binding.unwrap());
                let actions = after_discovery(thread, &id, &saved, parent.as_deref());
                self.perform(actions);
                Some(saved)
            }
        }
    }

    fn ensure_bindings(&mut self, thread: &Json) -> Vec<CodexThreadBindingRow> {
        let mut found = vec![];
        for workspace in self.workspaces.clone() {
            if let Some(binding) = self.ensure_binding(thread, &workspace) {
                found.push(binding);
            }
        }
        found
    }

    fn show_steps(&mut self, conversation_id: &str, steps: Vec<HistoryStep>) {
        for step in steps {
            match step {
                HistoryStep::Turn { turn_id } => self.perform(vec![Action::SetExternalTurn {
                    conversation_id: conversation_id.to_owned(),
                    turn_id,
                }]),
                HistoryStep::Item {
                    turn_id,
                    item,
                    created_at,
                } => {
                    let actions = project_item(
                        &mut self.streams,
                        conversation_id,
                        &turn_id,
                        &item,
                        created_at,
                        false,
                        true,
                        NOW,
                    );
                    self.perform(actions);
                }
            }
        }
    }

    fn notify(&mut self, method: &str, params: &str) {
        let params = json(params);
        match notification_route(method, &params) {
            Route::Nothing => {}
            Route::Started { thread } => {
                for binding in self.ensure_bindings(&thread) {
                    assert!(thread_history_fits(&thread, NOW));
                    let steps = project_thread_history(&thread, NOW);
                    self.show_steps(&binding.conversation_id, steps);
                }
            }
            Route::Thread { thread_id } => {
                for binding in self.bindings_of_thread(&thread_id) {
                    let actions = project_notification(
                        &mut self.streams,
                        &binding.conversation_id,
                        &thread_id,
                        method,
                        &params,
                        NOW,
                    );
                    self.perform(actions);
                }
            }
        }
    }

    fn discover(&mut self, workspace: &CodexWatchedWorkspaceRow, server: &Server) -> Vec<String> {
        let mut asked = vec![];
        let mut discovery = Discovery::new(workspace.clone());
        loop {
            let fetch = discovery.fetch();
            if fetch == Fetch::Nothing {
                return asked;
            }
            asked.push(format!("{fetch:?}"));
            let (next, shown) = discovery.step(server.answer(&fetch));
            discovery = next;
            for fetched in shown {
                if let Some(binding) = self.ensure_binding(&fetched.thread, workspace) {
                    self.sync_state(&binding.conversation_id, &fetched.thread);
                }
            }
        }
    }

    fn message(&self, conversation_id: &str, id: &str) -> Option<&MessageRow> {
        self.messages
            .iter()
            .find(|row| row.conversation_id == conversation_id && row.id == id)
    }
}

fn copy(row: &ConversationRow) -> ConversationRow {
    ConversationRow {
        id: row.id.clone(),
        user_id: row.user_id.clone(),
        name: row.name.clone(),
        conversation_type: row.conversation_type.clone(),
        extra: row.extra.clone(),
        model: row.model.clone(),
        status: row.status.clone(),
        source: row.source.clone(),
        channel_chat_id: row.channel_chat_id.clone(),
        pinned: row.pinned,
        pinned_at: row.pinned_at,
        created_at: row.created_at,
        updated_at: row.updated_at,
    }
}

struct Server {
    loaded: Vec<String>,
    threads: Vec<Json>,
    descendants: Vec<(String, Json)>,
}

impl Server {
    fn thread(&self, id: &str) -> Reply {
        self.threads
            .iter()
            .chain(self.descendants.iter().map(|pair| &pair.1))
            .find(|thread| thread.str_at("id") == Some(id))
            .map_or(Reply::Failed, |thread| Reply::Thread { thread: fetch(thread) })
    }

    fn answer(&self, request: &Fetch) -> Reply {
        match request {
            Fetch::Loaded => Reply::Loaded {
                thread_ids: self.loaded.clone(),
            },
            Fetch::Thread { thread_id } | Fetch::Resume { thread_id } => self.thread(thread_id),
            Fetch::Page { cursor: None, archived: false } => page(self.threads.iter()),
            Fetch::Descendants {
                root_thread_id,
                cursor: None,
                archived: false,
            } => page(
                self.descendants
                    .iter()
                    .filter(|pair| pair.0 == *root_thread_id)
                    .map(|pair| &pair.1),
            ),
            _ => page([].iter()),
        }
    }
}

fn page<'a>(threads: impl Iterator<Item = &'a Json>) -> Reply {
    Reply::Page {
        page: FetchedPage {
            threads: threads.map(fetch).collect(),
            next_cursor: None,
        },
    }
}

fn fetch(thread: &Json) -> FetchedThread {
    FetchedThread {
        cwd: thread.str_at("cwd").map(str::to_owned),
        thread: thread.clone(),
    }
}

fn workspace(id: &str, root_path: &str) -> CodexWatchedWorkspaceRow {
    CodexWatchedWorkspaceRow {
        id: id.into(),
        user_id: "system_default_user".into(),
        root_path: root_path.into(),
        recursive: true,
        enabled: true,
        created_at: 1,
        updated_at: 1,
    }
}

fn thread(id: &str, cwd: &str) -> Json {
    json(&format!(
        "{{\"id\":\"{id}\",\"cwd\":\"{cwd}\",\"source\":\"cli\",
          \"status\":{{\"type\":\"active\",\"activeFlags\":[]}},\"createdAt\":1,\"updatedAt\":1,\"turns\":[]}}"
    ))
}

fn idle_thread(id: &str, cwd: &str) -> Json {
    thread(id, cwd).put("status", json(r#"{"type":"idle"}"#))
}

fn started(thread: &Json) -> String {
    format!("{{\"thread\":{}}}", codex_native::wire::print(thread))
}

#[test]
fn workspace_match_is_component_aware() {
    assert!(workspace_matches("/tmp/project", "/tmp/project", true));
    assert!(workspace_matches("/tmp/project", "/tmp/project/crate", true));
    assert!(!workspace_matches("/tmp/project", "/tmp/project-other", true));
    assert!(!workspace_matches("/tmp/project", "/tmp/project/crate", false));
}

#[test]
fn command_approval_maps_to_existing_confirmation_contract() {
    let request = CodexPendingRequest {
        request_id: json("7"),
        method: "item/commandExecution/requestApproval".into(),
        params: json(r#"{"threadId": "t1", "command": "cargo test"}"#),
    };
    let confirmation = pending_request_to_confirmation(&request).unwrap();
    assert_eq!(confirmation.call_id, "7");
    assert_eq!(confirmation.action.as_deref(), Some("exec"));
    assert_eq!(confirmation.options[0].value, json("\"proceed_once\""));
}

#[test]
fn discovery_is_workspace_scoped_idempotent_and_streams_command_output() {
    let mut world = World::new(vec![workspace("watch-1", "/home/taichuy/git/1flowbase")]);
    let target_thread = thread("thread-target", "/home/taichuy/git/1flowbase/api");
    let other_thread = thread("thread-other", "/home/taichuy/git/1flowbase-other");

    world.notify("thread/started", &started(&target_thread));
    world.notify("thread/started", &started(&other_thread));
    world.notify(
        "thread/started",
        &started(&thread("thread-target", "/home/taichuy/git/1flowbase/api")),
    );

    assert_eq!(world.bindings.len(), 1);
    let binding = world.bindings[0].clone();
    assert_eq!(binding.thread_id, "thread-target");
    assert_eq!(binding.cwd, "/home/taichuy/git/1flowbase/api");

    world.events.clear();
    world.notify(
        "turn/started",
        r#"{"threadId": "thread-target", "turn": {"id": "turn-1", "status": "inProgress"}}"#,
    );
    assert!(world.events.iter().any(|event| event.0 == "message.stream"));
    assert!(world.events.iter().any(|event| event.0 == "conversation.listChanged"));

    world.notify(
        "item/started",
        r#"{"threadId": "thread-target", "turnId": "turn-1", "item": {"type": "commandExecution", "id": "command-1",
            "command": "cargo test", "cwd": "/home/taichuy/git/1flowbase/api", "status": "inProgress"}}"#,
    );
    world.notify(
        "item/commandExecution/outputDelta",
        r#"{"threadId": "thread-target", "turnId": "turn-1", "itemId": "command-1", "delta": "test result: ok"}"#,
    );

    let message = world.message(&binding.conversation_id, "command-1").unwrap();
    assert_eq!(json(&message.content).str_at("output"), Some("test result: ok"));
    assert_eq!(message.status.as_deref(), Some("work"));

    world.notify(
        "thread/status/changed",
        r#"{"threadId": "thread-target", "status": {"type": "idle"}}"#,
    );
    let place = world.conversation(&binding.conversation_id).unwrap();
    assert_eq!(world.conversations[place].status.as_deref(), Some("finished"));
}

#[test]
fn legacy_history_falls_back_to_turn_summaries() {
    let mut world = World::new(vec![workspace("watch-legacy", "/home/taichuy/git/legacy")]);
    let legacy_thread = thread("thread-legacy", "/home/taichuy/git/legacy");
    world.notify("thread/started", &started(&legacy_thread));
    let mut binding = world.bindings.pop().unwrap();

    let refused = CodexAppServerError::Rpc {
        code: -32601,
        message: "thread/items/list is not supported yet".into(),
        data: None,
    };
    assert!(needs_turn_summaries(&refused));
    let page = HistoryPage {
        entries: vec![
            json(r#"{"turnId": "turn-legacy", "item": {"type": "agentMessage", "id": "agent-1", "text": "done"}}"#),
            json(
                r#"{"turnId": "turn-legacy", "item": {"type": "userMessage", "id": "user-1",
                    "content": [{"type": "text", "text": "start"}]}}"#,
            ),
        ],
        next_cursor: None,
    };
    let start = history_start(&binding, None, NOW);
    assert!(history_page_fits(&page, start));
    let (steps, state) = sync_history_page(&page, start);
    world.show_steps(&binding.conversation_id, steps);
    binding.set_history_state(state.cursor, state.complete, state.next_created_at, NOW);

    assert!(world.message(&binding.conversation_id, "user-1").is_some());
    assert!(world.message(&binding.conversation_id, "agent-1").is_some());
    assert!(binding.history_complete);
    assert_eq!(binding.history_next_created_at, Some(NOW - 2));
    assert_eq!(world.message(&binding.conversation_id, "agent-1").unwrap().created_at, NOW);
    assert_eq!(world.message(&binding.conversation_id, "user-1").unwrap().created_at, NOW - 1);
}

#[test]
fn workspace_discovery_projects_only_five_recent_finished_threads() {
    let workspace = workspace("watch-recent", "/home/taichuy/git/recent");
    let mut world = World::new(vec![]);
    let server = Server {
        loaded: vec!["thread-target".into()],
        threads: (0..8)
            .map(|index| idle_thread(&format!("thread-{index}"), "/home/taichuy/git/recent"))
            .collect(),
        descendants: vec![],
    };

    world.discover(&workspace, &server);

    assert_eq!(world.bindings.len(), 5);
}

#[test]
fn discovery_shows_loaded_sub_agents_below_the_thread_they_belong_to() {
    let place = workspace("w", "/w");
    let child = thread("child", "/w/x").put("parentThreadId", json("\"root\""));
    let server = Server {
        loaded: vec!["child".into()],
        threads: vec![idle_thread("root", "/w"), idle_thread("elsewhere", "/v")],
        descendants: vec![
            ("root".into(), child.clone()),
            ("root".into(), idle_thread("done", "/w").put("parentThreadId", json("\"root\""))),
        ],
    };
    let mut world = World::new(vec![]);
    let asked = world.discover(&place, &server);
    assert_eq!(
        asked,
        vec![
            "Loaded",
            "Thread { thread_id: \"child\" }",
            "Thread { thread_id: \"root\" }",
            "Page { cursor: None, archived: false }",
            "Page { cursor: None, archived: true }",
            "Descendants { root_thread_id: \"root\", cursor: None, archived: false }",
            "Descendants { root_thread_id: \"root\", cursor: None, archived: true }",
            "Resume { thread_id: \"child\" }",
        ]
    );
    let mut threads: Vec<&str> = world.bindings.iter().map(|row| row.thread_id.as_str()).collect();
    threads.sort();
    assert_eq!(threads, vec!["child", "done", "root"]);

    let root = world.bindings.iter().find(|row| row.thread_id == "root").unwrap();
    let row = &world.conversations[world.conversation(&root.conversation_id).unwrap()];
    let extra = json(&row.extra);
    assert_eq!(extra.get("codex_subagent_total_count").unwrap().as_i64(), Some(2));
    assert_eq!(extra.get("codex_subagent_running_count").unwrap().as_i64(), Some(1));
    assert_eq!(extra.get("codex_subagent_completed_count").unwrap().as_i64(), Some(1));
    let child = world.bindings.iter().find(|row| row.thread_id == "child").unwrap();
    let row = &world.conversations[world.conversation(&child.conversation_id).unwrap()];
    assert_eq!(
        json(&row.extra).str_at("codex_parent_conversation_id"),
        Some(root.conversation_id.as_str())
    );

    let before = world.conversations.len();
    world.discover(&place, &server);
    world.events.clear();
    world.discover(&place, &server);
    assert_eq!(world.conversations.len(), before);
    assert_eq!(world.bindings.len(), 3);
    assert!(world.events.is_empty(), "{:?}", world.events);
}

#[test]
fn a_turn_runs_in_its_conversation_until_it_ends() {
    let mut world = World::new(vec![workspace("w", "/w")]);
    world.notify("thread/started", &started(&idle_thread("t", "/w")));
    let id = world.bindings[0].conversation_id.clone();
    world.notify("turn/started", r#"{"threadId":"t","turn":{"id":"u"}}"#);
    assert_eq!(world.turns, vec![(id.clone(), "u".to_owned())]);
    assert_eq!(world.conversations[0].status.as_deref(), Some("running"));
    world.events.clear();
    world.notify("turn/completed", r#"{"threadId":"t","turn":{"id":"u"}}"#);
    assert!(world.turns.is_empty());
    assert_eq!(world.conversations[0].status.as_deref(), Some("finished"));
    assert_eq!(world.delivered, vec![id.clone()]);
    assert_eq!(world.events.len(), 2);
    assert_eq!(world.events[0].1.str_at("type"), Some("finish"));
    assert_eq!(world.events[1].0, "turn.completed");
    assert_eq!(
        codex_native::wire::print(&world.events[1].1),
        format!(
            "{{\"canSendMessage\":true,\"conversation_id\":\"{id}\",\"session_id\":\"{id}\",\"status\":\"finished\",\"turn_id\":\"u\"}}"
        )
    );
}

#[test]
fn bindings_are_marked_when_the_connection_is_lost() {
    let mut world = World::new(vec![workspace("w", "/w")]);
    world.notify("thread/started", &started(&thread("t", "/w")));
    let update = mark_binding_stored_only(&world.conversations[0], 77).unwrap();
    world.conversations[0].update(update);
    assert_eq!(world.conversations[0].updated_at, 77);
    let extra = json(&world.conversations[0].extra);
    assert_eq!(extra.str_at("codex_live_state"), Some("stored_only"));
    assert_eq!(extra.str_at("codex_thread_id"), Some("t"));
    world.conversations[0].extra = "[]".into();
    assert_eq!(mark_binding_stored_only(&world.conversations[0], 78), None);
    world.conversations[0].extra = "not a document".into();
    let update = mark_binding_stored_only(&world.conversations[0], 79).unwrap();
    assert_eq!(update.extra.as_deref(), Some(r#"{"codex_live_state":"stored_only"}"#));
}

#[test]
fn a_discovered_conversation_keeps_what_the_thread_says() {
    let workspace = workspace("w", "/w");
    let thread = json(
        r#"{"id":"t","cwd":"/w/x","source":{"subAgent":{"thread_spawn":{"parent_thread_id":"p","depth":2,
            "agent_path":"/team/build_fixer","agent_role":"tester"}}},"status":{"type":"notLoaded"},
            "createdAt":3,"updatedAt":4,"canAcceptDirectInput":false}"#,
    );
    let (row, binding) = create_discovered_conversation("c", HOME, &thread, &workspace, Some("pc"), 9);
    assert_eq!(
        row.extra,
        concat_str(&[
            r#"{"agent_id":"c0d3a55e","agent_source":"builtin","backend":"codex-native","codex_agent_depth":2,"#,
            r#""codex_agent_nickname":null,"codex_agent_path":"/team/build_fixer","codex_agent_role":"tester","#,
            r#""codex_auto_title":true,"codex_can_accept_direct_input":false,"codex_live_state":"stored_only","#,
            r#""codex_parent_conversation_id":"pc","codex_parent_thread_id":"p","codex_source":"subagent","#,
            r#""codex_subagent_kind":"thread-spawn","codex_thread_id":"t","codex_thread_role":"subagent","#,
            r#""codex_watched_root":"/w","custom_workspace":true,"workspace":"/w/x"}"#,
        ])
    );
    assert_eq!(row.name, "Build fixer");
    assert_eq!(row.status.as_deref(), Some("finished"));
    assert_eq!((row.created_at, row.updated_at), (3_000, 4_000));
    assert_eq!(row.conversation_type, "codex-app-server");
    assert_eq!(row.source.as_deref(), Some("aionui"));
    let binding = binding.unwrap();
    assert_eq!(binding.live_state, "stored_only");
    assert_eq!(binding.source, "subagent");
    assert_eq!((binding.created_at, binding.updated_at), (3_000, 9));
}

fn concat_str(parts: &[&str]) -> String {
    parts.iter().map(|part| part.to_string()).collect()
}

#[test]
fn a_renamed_thread_renames_its_conversation_once() {
    let mut world = World::new(vec![workspace("w", "/w")]);
    world.notify("thread/started", &started(&idle_thread("t", "/w")));
    assert_eq!(world.conversations[0].name, "GPT Codex");
    world.events.clear();
    let named = idle_thread("t", "/w").put("name", json("\"Fix the build\""));
    world.notify("thread/started", &started(&named));
    assert_eq!(world.conversations[0].name, "Fix the build");
    assert!(world.events.iter().any(|event| event.0 == "conversation.listChanged"));
    world.events.clear();
    world.notify("thread/started", &started(&named));
    assert!(world.events.is_empty());

    let moved = named.put("source", json("\"vscode\""));
    world.notify("thread/started", &started(&moved));
    assert_eq!(world.bindings[0].source, "vscode");
    assert_eq!(json(&world.conversations[0].extra).str_at("codex_source"), Some("vscode"));
}

#[test]
fn a_chosen_name_is_kept() {
    let mut world = World::new(vec![workspace("w", "/w")]);
    world.notify("thread/started", &started(&idle_thread("t", "/w")));
    world.conversations[0].name = "Mine".into();
    world.conversations[0].extra = r#"{"codex_auto_title":false}"#.into();
    world.notify(
        "thread/started",
        &started(&idle_thread("t", "/w").put("name", json("\"Other\""))),
    );
    assert_eq!(world.conversations[0].name, "Mine");
    assert_eq!(json(&world.conversations[0].extra).str_at("codex_source"), Some("cli"));
    let conversation = &world.conversations[0];
    let binding = &world.bindings[0];
    let broken = ConversationRow {
        extra: "3".into(),
        ..copy(conversation)
    };
    assert_eq!(
        sync_conversation_thread_metadata(&broken, binding, &idle_thread("t", "/w"), None, NOW),
        None
    );
    assert_eq!(sync_binding_thread_state(&broken, &idle_thread("t", "/w"), NOW), None);
    assert_eq!(recompute_subagent_summary(&broken, &vec![]), None);
}

#[test]
fn the_state_of_a_thread_is_told_when_it_changes() {
    let mut world = World::new(vec![workspace("w", "/w")]);
    world.notify("thread/started", &started(&idle_thread("t", "/w")));
    let id = world.bindings[0].conversation_id.clone();
    world.events.clear();
    world.sync_state(&id, &json(r#"{"status":{"type":"active"},"turns":[{"id":"a"},{"id":"b","status":"inProgress"}]}"#));
    assert_eq!(world.turns, vec![(id.clone(), "b".to_owned())]);
    assert_eq!(world.conversations[0].status.as_deref(), Some("running"));
    assert_eq!(world.conversations[0].updated_at, NOW);
    assert_eq!(world.events.len(), 1);
    world.sync_state(&id, &json(r#"{"status":{"type":"active"}}"#));
    assert_eq!(world.turns.len(), 1);
    assert_eq!(world.events.len(), 1);
    world.sync_state(&id, &json(r#"{"status":{"type":"notLoaded"},"updatedAt":6}"#));
    assert!(world.turns.is_empty());
    assert_eq!(world.bindings[0].live_state, "stored_only");
    assert_eq!(world.conversations[0].status.as_deref(), Some("finished"));
    assert_eq!(world.conversations[0].updated_at, 6_000);
    assert_eq!(world.events.len(), 2);
    world.sync_state(&id, &json(r#"{"status":{"type":"systemError"}}"#));
    assert_eq!(world.conversations[0].status.as_deref(), Some("finished"));
    assert_eq!(world.bindings[0].live_state, "live");
    assert_eq!(world.events.len(), 3);
}

#[test]
fn history_is_shown_item_by_item() {
    let mut world = World::new(vec![workspace("w", "/w")]);
    let turns = json(
        r#"[{"id":"u1","startedAt":5,"items":[{"type":"userMessage","id":"a","clientId":"m","content":[]},
            {"type":"plan","id":"b","text":"do"}]},
            {"id":"u2","startedAt":7,"status":"inProgress","items":[{"type":"agentMessage","id":"c","text":"hi"}]}]"#,
    );
    world.notify("thread/started", &started(&thread("t", "/w").put("turns", turns)));
    let id = world.bindings[0].conversation_id.clone();
    assert_eq!(world.turns, vec![(id.clone(), "u2".to_owned())]);
    let times: Vec<(&str, i64)> = world
        .messages
        .iter()
        .map(|row| (row.id.as_str(), row.created_at))
        .collect();
    assert_eq!(times, vec![("m", 5_000), ("b", 5_001), ("c", 7_000)]);
    assert!(world.events.iter().all(|event| event.0 == "conversation.listChanged"));
    assert!(!thread_history_fits(
        &json(r#"{"turns":[{"startedAt":9223372036854775}, {"startedAt":9223372036854776}]}"#),
        NOW
    ));
    assert!(thread_history_fits(&json(r#"{"turns":3}"#), NOW));
}

#[test]
fn pages_of_history_go_on_from_each_other() {
    let mut world = World::new(vec![workspace("w", "/w")]);
    world.notify("thread/started", &started(&idle_thread("t", "/w")));
    let mut binding = world.bindings[0].clone();
    let page = HistoryPage {
        entries: vec![
            json(r#"{"item":{"type":"agentMessage","id":"x","text":"3"}}"#),
            json(r#"{"turnId":"u"}"#),
            json(r#"{"turnId":"u","item":{"type":"agentMessage","id":"y","text":"1"}}"#),
        ],
        next_cursor: Some("n".into()),
    };
    let (steps, state) = sync_history_page(&page, history_start(&binding, None, NOW));
    assert_eq!(steps.len(), 2);
    assert!(!state.complete);
    binding.set_history_state(state.cursor, state.complete, state.next_created_at, NOW);
    assert_eq!(binding.history_cursor.as_deref(), Some("n"));
    assert_eq!(history_start(&binding, Some("n"), 5_000), NOW - 3);
    assert_eq!(history_start(&binding, None, 5_000), 5_000);
    assert!(!history_page_fits(&page, i64::MIN + 2));
    assert!(!needs_turn_summaries(&CodexAppServerError::Timeout));
}

#[test]
fn only_an_idle_status_finishes_a_conversation() {
    let mut world = World::new(vec![workspace("w", "/w")]);
    world.notify("thread/started", &started(&idle_thread("t", "/w")));
    world.conversations[0].status = Some("waiting".into());
    world.events.clear();
    let before = copy(&world.conversations[0]);
    let binding = world.bindings[0].clone();
    for status in ["active", "notLoaded", "systemError", ""] {
        world.notify(
            "thread/status/changed",
            &format!("{{\"threadId\":\"t\",\"status\":{{\"type\":\"{status}\"}}}}"),
        );
        assert_eq!(world.conversations[0], before);
    }
    world.notify("thread/status/changed", r#"{"threadId":"t","status":{"type":"idle"}}"#);
    assert_eq!(
        world.conversations[0],
        ConversationRow {
            status: Some("finished".into()),
            ..before
        }
    );
    assert_eq!(world.bindings, vec![binding]);
    assert!(world.turns.is_empty() && world.events.is_empty());
}

#[test]
fn a_second_discovery_binds_the_same_threads() {
    let place = workspace("w", "/w");
    let server = Server {
        loaded: vec!["a".into(), "child".into()],
        threads: vec![thread("a", "/w"), idle_thread("root", "/w/y"), idle_thread("elsewhere", "/v")],
        descendants: vec![(
            "root".into(),
            thread("child", "/w/x").put("parentThreadId", json("\"root\"")),
        )],
    };
    let mut world = World::new(vec![]);
    world.discover(&place, &server);
    let identities = |world: &World| -> Vec<(String, String, String, String)> {
        world
            .bindings
            .iter()
            .map(|row| {
                (
                    row.user_id.clone(),
                    row.codex_home.clone(),
                    row.thread_id.clone(),
                    row.conversation_id.clone(),
                )
            })
            .collect()
    };
    let once = identities(&world);
    assert_eq!(once.len(), 3);
    let made = world.conversations.len();
    world.discover(&place, &server);
    assert_eq!(identities(&world), once);
    assert_eq!(world.conversations.len(), made);
}

#[test]
fn a_thread_is_taken_in_once_whatever_numbers_are_kept() {
    let mut world = World::new(vec![workspace("w", "/w")]);
    let place = thread("t", "/w").put("canAcceptDirectInput", json("true"));
    world.notify("thread/started", &started(&place));
    world.conversations[0].extra =
        r#"{"ratio":0.1,"most":1.7976931348623157e308,"least":5e-324,"large":18446744073709551615}"#.into();
    world.events.clear();
    world.notify("thread/started", &started(&place));
    // Its description and the number of its sub-agents are both told.
    assert_eq!(world.events.len(), 2);
    let kept = world.conversations[0].extra.clone();
    assert_eq!(json(&kept).str_at("codex_thread_role"), Some("root"));
    world.events.clear();
    world.notify("thread/started", &started(&place));
    assert!(world.events.is_empty());
    assert_eq!(world.conversations[0].extra, kept);
}

#[test]
fn a_thread_with_sub_agents_is_taken_in_once() {
    let mut world = World::new(vec![workspace("w", "/w")]);
    let child = thread("child", "/w").put("parentThreadId", json("\"root\""));
    let root = idle_thread("root", "/w").put("name", json("\"Ship it\""));
    world.notify("thread/started", &started(&child));
    world.notify("thread/started", &started(&root));
    for row in &mut world.conversations {
        let extra = json(&row.extra)
            .without("codex_subagent_total_count")
            .without("codex_source")
            .without("codex_parent_conversation_id")
            .put("ratio", json("0.3"))
            .put("large", json("18446744073709551615"));
        row.extra = codex_native::wire::print(&extra);
    }
    for thread in [&root, &child] {
        world.events.clear();
        world.notify("thread/started", &started(thread));
        assert!(!world.events.is_empty());
        let kept: Vec<ConversationRow> = world.conversations.iter().map(copy).collect();
        world.events.clear();
        world.notify("thread/started", &started(thread));
        assert!(world.events.is_empty(), "{:?}", world.events);
        assert_eq!(world.conversations, kept);
    }
    let extra = json(&world.conversations[1].extra);
    assert_eq!(extra.get("codex_subagent_total_count").unwrap().as_i64(), Some(1));
    assert_eq!(
        json(&world.conversations[0].extra).str_at("codex_parent_conversation_id"),
        Some(world.conversations[1].id.as_str())
    );
}
