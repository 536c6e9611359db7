//! What threads say of themselves.
use codex_native::json::Json;
use codex_native::rows::ConversationError;
use codex_native::thread::{
    binding_from_thread, short_title, source_name, thread_age_fits, thread_display_title, thread_is_active,
    thread_is_subagent, thread_matches_workspace, thread_metadata, thread_parent_id, thread_place,
    thread_running_turn, thread_times_fit, FetchedThread,
};
use codex_native::wire::parse;

fn json(text: &str) -> Json {
    parse(text).unwrap()
}

fn title(text: &str) -> String {
    let thread = json(text);
    thread_display_title(&thread, &thread_metadata(&thread))
}

#[test]
fn titles_are_short() {
    assert_eq!(short_title("  Fix the build \n"), "Fix the build");
    assert_eq!(short_title(" \t "), "GPT Codex");
    assert_eq!(short_title(&"ü".repeat(100)), "ü".repeat(80));
    assert_eq!(short_title(&"x".repeat(80)), "x".repeat(80));
}

#[test]
fn titles_come_from_what_is_told_first() {
    assert_eq!(title(r#"{"name":" A ","preview":"p","agentPath":"/x"}"#), "A");
    assert_eq!(title(r#"{"name":"  ","agentPath":"/team/build_fixer-two/"}"#), "Build fixer two");
    assert_eq!(title(r#"{"agentPath":"écran"}"#), "écran");
    assert_eq!(title(r#"{"agentPath":"//","agentRole":"tester","agentNickname":"n"}"#), "tester");
    assert_eq!(title(r#"{"agent_role":" ","agent_nickname":"Nick"}"#), "Nick");
    assert_eq!(title(r#"{"preview":"How it starts"}"#), "How it starts");
    assert_eq!(title(r#"{"threadSource":"subagent"}"#), "GPT Codex 子智能体");
    assert_eq!(title("{}"), "GPT Codex");
}

#[test]
fn metadata_of_a_thread_of_its_own() {
    let metadata = thread_metadata(&json(r#"{"id":"t","source":"cli"}"#));
    assert_eq!(metadata.role, "root");
    assert_eq!(metadata.parent_thread_id, None);
    assert_eq!(metadata.kind, None);
    assert_eq!(metadata.depth, None);
    assert_eq!(metadata.can_accept_direct_input, None);
}

#[test]
fn metadata_of_a_sub_agent() {
    let thread = json(
        r#"{"source":{"subAgent":{"thread_spawn":{"parent_thread_id":"p","depth":2,"agentPath":"/a/b",
            "agent_nickname":"n"}}},"agentRole":"own","can_accept_direct_input":true}"#,
    );
    let metadata = thread_metadata(&thread);
    assert_eq!(metadata.role, "subagent");
    assert_eq!(metadata.parent_thread_id.as_deref(), Some("p"));
    assert_eq!(metadata.kind.as_deref(), Some("thread-spawn"));
    assert_eq!(metadata.agent_path.as_deref(), Some("/a/b"));
    assert_eq!(metadata.agent_nickname.as_deref(), Some("n"));
    assert_eq!(metadata.agent_role.as_deref(), Some("own"));
    assert_eq!(metadata.depth, Some(2));
    assert_eq!(metadata.can_accept_direct_input, Some(true));
    assert_eq!(thread_parent_id(&thread), Some("p"));
    assert!(thread_is_subagent(&thread));
}

#[test]
fn sub_agents_are_told_by_any_sign() {
    assert!(thread_is_subagent(&json(r#"{"parentThreadId":"p"}"#)));
    assert!(thread_is_subagent(&json(r#"{"parent_thread_id":"p"}"#)));
    assert!(thread_is_subagent(&json(r#"{"threadSource":"subagent"}"#)));
    assert!(thread_is_subagent(&json(r#"{"source":{"subAgent":"compact"}}"#)));
    assert!(thread_is_subagent(&json(r#"{"source":{"subagent":null}}"#)));
    assert!(!thread_is_subagent(&json(r#"{"parentThreadId":null,"thread_source":"user","source":"cli"}"#)));
    for text in [
        r#"{"parent_thread_id":"p"}"#,
        r#"{"source":{"subAgent":"compact"}}"#,
        r#"{"source":{"subAgent":{"threadSpawn":{"parentThreadId":"r"}}}}"#,
        r#"{"source":{"type":"subAgent"}}"#,
        "{}",
    ] {
        let thread = json(text);
        assert_eq!(thread_metadata(&thread).role == "subagent", thread_is_subagent(&thread), "{text}");
    }
    assert_eq!(
        thread_parent_id(&json(r#"{"source":{"subagent":{"thread_spawn":{"parent_thread_id":"q"}}}}"#)),
        Some("q")
    );
    assert_eq!(
        thread_parent_id(&json(r#"{"source":{"subAgent":{"threadSpawn":{"parentThreadId":"r"}}}}"#)),
        Some("r")
    );
    assert_eq!(thread_parent_id(&json(r#"{"parentThreadId":7,"parent_thread_id":"s"}"#)), None);
}

#[test]
fn names_of_sources() {
    assert_eq!(source_name(None), "unknown");
    assert_eq!(source_name(Some(&json("\"cli\""))), "cli");
    assert_eq!(source_name(Some(&json(r#"{"type":"exec","a":1}"#))), "exec");
    assert_eq!(source_name(Some(&json(r#"{"SubAgent":{}}"#))), "subagent");
    assert_eq!(source_name(Some(&json(r#"{"zeta":1,"custom":2}"#))), "custom");
    assert_eq!(source_name(Some(&json("{}"))), "unknown");
    assert_eq!(source_name(Some(&json("5"))), "unknown");
}

#[test]
fn a_thread_needs_an_id_and_a_directory() {
    let omitted = |what: &str| {
        Err(ConversationError::Internal {
            reason: format!("Codex thread omitted {what}"),
        })
    };
    assert_eq!(thread_place(&json(r#"{"cwd":"/w"}"#)), omitted("id"));
    assert_eq!(thread_place(&json(r#"{"id":"t"}"#)), omitted("cwd"));
    assert_eq!(
        thread_place(&json(r#"{"id":"t","cwd":"/w"}"#)),
        Ok(("t".to_owned(), "/w".to_owned()))
    );
}

#[test]
fn a_thread_is_bound_with_its_age() {
    let thread = json(r#"{"id":"t","cwd":"/w","createdAt":12,"source":"vscode"}"#);
    let row = binding_from_thread("/h", &thread, "u", "c", "live", 99).unwrap();
    assert_eq!((row.created_at, row.updated_at), (12_000, 99));
    assert_eq!(row.source, "vscode");
    assert_eq!((row.history_cursor, row.history_complete), (None, false));
    let young = binding_from_thread("/h", &json(r#"{"id":"t","cwd":"/w"}"#), "u", "c", "live", 99).unwrap();
    assert_eq!(young.created_at, 99);
    assert!(binding_from_thread("/h", &json("{}"), "u", "c", "live", 99).is_err());
    let odd = json(r#"{"id":"t","cwd":"/w","createdAt":12,"updatedAt":9223372036854776}"#);
    assert!(thread_age_fits(&odd));
    assert_eq!(binding_from_thread("/h", &odd, "u", "c", "live", 99).unwrap().created_at, 12_000);
    assert!(!thread_age_fits(&json(r#"{"createdAt":9223372036854776}"#)));
    assert!(thread_times_fit(&json(r#"{"createdAt":9223372036854775,"updatedAt":-9223372036854775}"#)));
    assert!(!thread_times_fit(&json(r#"{"createdAt":9223372036854776}"#)));
    assert!(!thread_times_fit(&json(r#"{"updatedAt":-9223372036854776}"#)));
}

#[test]
fn the_first_turn_in_progress_runs() {
    let thread = json(
        r#"{"status":{"type":"active"},"turns":[{"id":"a","status":"completed"},{"id":"b","status":"inProgress"},
            {"id":"c","status":"inProgress"}]}"#,
    );
    assert_eq!(thread_running_turn(&thread), Some("b"));
    assert!(thread_is_active(&thread));
    assert_eq!(thread_running_turn(&json(r#"{"turns":[{"status":"inProgress"},{"id":"b","status":"inProgress"}]}"#)), None);
    assert_eq!(thread_running_turn(&json("{}")), None);
    assert!(!thread_is_active(&json(r#"{"status":"active"}"#)));
}

#[test]
fn a_thread_without_a_directory_is_in_no_workspace() {
    let workspace = codex_native::rows::watched_workspace("w".into(), "u", "/w".into(), true, 1);
    let at = |cwd: Option<&str>| FetchedThread {
        thread: Json::object(),
        cwd: cwd.map(str::to_owned),
    };
    assert!(thread_matches_workspace(&at(Some("/w/x")), &workspace));
    assert!(!thread_matches_workspace(&at(Some("/wx")), &workspace));
    assert!(!thread_matches_workspace(&at(None), &workspace));
}
