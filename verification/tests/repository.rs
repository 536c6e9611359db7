//! Rows that are stored over each other.
use codex_native::bindings::store_binding;
use codex_native::rows::{
    binding_of_user, stored_binding, stored_workspace, watched_workspace, workspaces_for_user, CodexThreadBindingRow,
    CodexWatchedWorkspaceRow, ConversationRow, ConversationRowUpdate,
};

const USER_ID: &str = "system_default_user";

#[test]
fn workspace_upsert_preserves_identity_and_updates_policy() {
    let original = workspace("watch-1", "/home/taichuy/git/1flowbase", true, true, 10);
    let stored = stored_workspace(None, &original);
    assert_eq!(stored, original);

    let replacement = workspace("watch-replacement", "/home/taichuy/git/1flowbase", false, false, 20);
    let saved = stored_workspace(Some(stored), &replacement);
    assert_eq!(
        saved,
        CodexWatchedWorkspaceRow {
            id: "watch-1".into(),
            created_at: 10,
            ..replacement
        }
    );
    assert!(!saved.enabled);
}

#[test]
fn thread_binding_upsert_is_idempotent_and_tracks_live_state() {
    let original = binding("conversation-1", "live", "/home/taichuy/git/1flowbase", 10);
    let stored = stored_binding(None, &original);
    assert_eq!(stored, original);

    let replacement = binding(
        "ignored-conversation-id",
        "stored_only",
        "/home/taichuy/git/1flowbase/api",
        20,
    );
    let saved = stored_binding(Some(stored), &replacement);
    assert_eq!(
        saved,
        CodexThreadBindingRow {
            conversation_id: "conversation-1".into(),
            created_at: 10,
            ..replacement.clone()
        }
    );
    assert_eq!(stored_binding(Some(saved.clone()), &replacement), saved);

    let mut row = saved.clone();
    row.set_live_state("live", 30);
    assert_eq!(
        row,
        CodexThreadBindingRow {
            live_state: "live".into(),
            updated_at: 30,
            ..saved.clone()
        }
    );

    row.set_history_state(Some("next-page".into()), false, 29, 40);
    assert_eq!(
        row,
        CodexThreadBindingRow {
            live_state: "live".into(),
            history_cursor: Some("next-page".into()),
            history_next_created_at: Some(29),
            updated_at: 40,
            ..saved
        }
    );
}

#[test]
fn a_new_binding_starts_without_history() {
    let mut row = binding("c", "live", "/w", 1);
    row.set_history_state(Some("x".into()), true, 3, 4);
    let stored = stored_binding(None, &row);
    assert_eq!(stored.history_cursor, None);
    assert!(!stored.history_complete);
    assert_eq!(stored.history_next_created_at, None);
    let kept = stored_binding(Some(row), &binding("d", "live", "/v", 9));
    assert_eq!(kept.history_cursor.as_deref(), Some("x"));
    assert_eq!(kept.conversation_id, "c");
    assert_eq!(kept.cwd, "/v");
}

#[test]
fn storing_a_binding_changes_no_other() {
    let mut rows = vec![];
    let first = store_binding(&mut rows, &binding("c1", "live", "/w", 1));
    let mut theirs = binding("c2", "live", "/w", 2);
    theirs.user_id = "other".into();
    let theirs = store_binding(&mut rows, &theirs);
    let mut at_home = binding("c3", "live", "/w", 3);
    at_home.codex_home = "/elsewhere".into();
    let at_home = store_binding(&mut rows, &at_home);
    let mut next = binding("c4", "live", "/w", 4);
    next.thread_id = "thread-2".into();
    let next = store_binding(&mut rows, &next);
    assert_eq!(rows, vec![first.clone(), theirs.clone(), at_home.clone(), next.clone()]);

    rows[0].set_history_state(Some("n".into()), true, 9, 5);
    let mut again = binding("c5", "stored_only", "/v", 6);
    again.source = "vscode".into();
    let saved = store_binding(&mut rows, &again);
    assert_eq!(saved.conversation_id, "c1");
    assert_eq!((saved.created_at, saved.updated_at), (1, 6));
    assert_eq!((saved.cwd.as_str(), saved.source.as_str(), saved.live_state.as_str()), ("/v", "vscode", "stored_only"));
    assert_eq!((saved.history_cursor.as_deref(), saved.history_complete), (Some("n"), true));
    assert_eq!(saved.history_next_created_at, Some(9));
    assert_eq!(rows, vec![saved, theirs, at_home, next]);
}

#[test]
fn rows_of_a_user() {
    let mut other = workspace("b", "/b", true, true, 2);
    other.user_id = "other".into();
    let rows = vec![
        workspace("a", "/a", true, true, 1),
        other,
        workspace("c", "/c", false, true, 3),
    ];
    let mine = workspaces_for_user(&rows, USER_ID);
    let ids: Vec<&str> = mine.iter().map(|row| row.id.as_str()).collect();
    assert_eq!(ids, vec!["a", "c"]);
    assert!(workspaces_for_user(&rows, "nobody").is_empty());

    let mut first = binding("c1", "live", "/w", 1);
    first.user_id = "other".into();
    let bindings = vec![first, binding("c2", "live", "/w", 2), binding("c3", "live", "/w", 3)];
    assert_eq!(binding_of_user(&bindings, USER_ID).unwrap().conversation_id, "c2");
    assert_eq!(binding_of_user(&bindings, "nobody"), None);
}

#[test]
fn a_registered_workspace_is_enabled() {
    assert_eq!(
        watched_workspace("w".into(), "u", "/r".into(), false, 7),
        CodexWatchedWorkspaceRow {
            id: "w".into(),
            user_id: "u".into(),
            root_path: "/r".into(),
            recursive: false,
            enabled: true,
            created_at: 7,
            updated_at: 7,
        }
    );
}

#[test]
fn an_update_changes_what_it_names() {
    let mut row = conversation("c");
    row.update(ConversationRowUpdate::default());
    assert_eq!(row, conversation("c"));
    row.update(ConversationRowUpdate {
        name: Some("n".into()),
        extra: None,
        status: Some("running".into()),
        updated_at: Some(5),
    });
    assert_eq!(row.name, "n");
    assert_eq!(row.status.as_deref(), Some("running"));
    assert_eq!(row.updated_at, 5);
    assert_eq!(row.extra, conversation("c").extra);
    row.update(ConversationRowUpdate {
        name: None,
        extra: Some("{}".into()),
        status: None,
        updated_at: None,
    });
    assert_eq!(row.extra, "{}");
    assert_eq!(row.status.as_deref(), Some("running"));
}

fn workspace(id: &str, root_path: &str, recursive: bool, enabled: bool, timestamp: i64) -> CodexWatchedWorkspaceRow {
    CodexWatchedWorkspaceRow {
        id: id.into(),
        user_id: USER_ID.into(),
        root_path: root_path.into(),
        recursive,
        enabled,
        created_at: timestamp,
        updated_at: timestamp,
    }
}

fn binding(conversation_id: &str, live_state: &str, cwd: &str, timestamp: i64) -> CodexThreadBindingRow {
    CodexThreadBindingRow {
        codex_home: "/home/taichuy/.codex".into(),
        thread_id: "thread-1".into(),
        user_id: USER_ID.into(),
        conversation_id: conversation_id.into(),
        cwd: cwd.into(),
        source: "cli".into(),
        live_state: live_state.into(),
        history_cursor: None,
        history_complete: false,
        history_next_created_at: None,
        created_at: timestamp,
        updated_at: timestamp,
    }
}

fn conversation(id: &str) -> ConversationRow {
    ConversationRow {
        id: id.into(),
        user_id: USER_ID.into(),
        name: "Codex task".into(),
        conversation_type: "codex-app-server".into(),
        extra: r#"{"workspace":"/home/taichuy/git/1flowbase"}"#.into(),
        model: None,
        status: Some("pending".into()),
        source: Some("aionui".into()),
        channel_chat_id: None,
        pinned: false,
        pinned_at: None,
        created_at: 1,
        updated_at: 1,
    }
}
