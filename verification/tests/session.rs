//! Inputs, answers and items.
use codex_native::actions::Action;
use codex_native::bindings::store_binding;
use codex_native::buffers::Streams;
use codex_native::confirmation::{list_confirmations, pending_request_to_confirmation, permission_stream};
use codex_native::discovery::{Discovery, Fetch, FetchedPage, Reply};
use codex_native::items::{project_item, user_message_text};
use codex_native::json::Json;
use codex_native::projection::{notification_route, project_notification, Route};
use codex_native::protocol::{CodexAppServerError, CodexAppServerSnapshot, CodexPendingRequest, CodexSendReceipt};
use codex_native::rows::{watched_workspace, CodexThreadBindingRow, ConversationError};
use codex_native::session::{
    active_binding, bind_step, codex_error, confirm, connected_home, ensure_conversation_binding, must_resume, send,
    start_thread_for, start_thread_in, BindStep, CodexNativeSendOutcome, PendingDeliveries,
};
use codex_native::sync::thread_to_bind;
use codex_native::thread::{binding_from_thread, FetchedThread};
use codex_native::wire::{parse, print};

fn json(text: &str) -> Json {
    parse(text).unwrap()
}

fn binding(thread_id: &str) -> CodexThreadBindingRow {
    CodexThreadBindingRow {
        codex_home: "/h".into(),
        thread_id: thread_id.into(),
        user_id: "u".into(),
        conversation_id: "c".into(),
        cwd: "/w".into(),
        source: "cli".into(),
        live_state: "live".into(),
        history_cursor: None,
        history_complete: false,
        history_next_created_at: None,
        created_at: 1,
        updated_at: 1,
    }
}

fn busy(reason: &str) -> ConversationError {
    ConversationError::Busy { reason: reason.into() }
}

#[test]
fn failed_calls_mean_something_for_a_conversation() {
    assert_eq!(codex_error(CodexAppServerError::Unavailable("gone".into())), busy("gone"));
    assert_eq!(codex_error(CodexAppServerError::Timeout), busy("Codex app-server request timed out"));
    assert_eq!(
        codex_error(CodexAppServerError::ActiveTurnNotSteerable),
        busy("Codex is running a non-steerable internal turn")
    );
    assert_eq!(
        codex_error(CodexAppServerError::InvalidResponse("x".into())),
        ConversationError::Internal {
            reason: "Invalid Codex app-server response: x".into()
        }
    );
    assert_eq!(
        codex_error(CodexAppServerError::Rpc {
            code: 5,
            message: "m".into(),
            data: None
        }),
        ConversationError::Internal {
            reason: "Codex app-server RPC 5: m".into()
        }
    );
}

#[test]
fn operations_need_a_connection_and_a_binding() {
    let mut snapshot = CodexAppServerSnapshot::default();
    assert_eq!(connected_home(&snapshot), Err(busy("Codex app-server is not connected")));
    snapshot.connect("/h".into(), "agent".into());
    assert_eq!(connected_home(&snapshot).as_deref(), Ok("/h"));
    assert_eq!(
        active_binding(None, "c"),
        Err(ConversationError::ActiveAgentNotFound {
            conversation_id: "c".into()
        })
    );
    assert_eq!(active_binding(Some(binding("t")), "c"), Ok(binding("t")));
    let mut stored = binding("t");
    assert!(!must_resume(&stored));
    stored.live_state = "stored_only".into();
    assert!(must_resume(&stored));
}

#[test]
fn an_input_that_is_not_taken_waits() {
    let mut pending = PendingDeliveries::new();
    let mut snapshot = CodexAppServerSnapshot::default();
    let receipt = CodexSendReceipt {
        turn_id: "u".into(),
        steered: true,
    };
    assert_eq!(
        send(&mut pending, &snapshot, "c", "t", "m0", "zero", Ok(receipt)),
        Ok(CodexNativeSendOutcome {
            msg_id: "m0".into(),
            turn_id: "u".into(),
            steered: true,
            pending_delivery: false,
        })
    );
    let refused = || Err(CodexAppServerError::ActiveTurnNotSteerable);
    assert_eq!(
        send(&mut pending, &snapshot, "c", "t", "m1", "one", refused()),
        Err(busy("Codex is running a non-steerable internal turn"))
    );
    assert_eq!(pending.take("c"), vec![]);
    snapshot.apply_notification("turn/started", &json(r#"{"threadId":"t","turn":{"id":"v"}}"#));
    for (msg_id, content) in [("m1", "one"), ("m2", "two")] {
        assert_eq!(
            send(&mut pending, &snapshot, "c", "t", msg_id, content, refused()),
            Ok(CodexNativeSendOutcome {
                msg_id: msg_id.into(),
                turn_id: "v".into(),
                steered: false,
                pending_delivery: true,
            })
        );
    }
    assert_eq!(pending.take("other"), vec![]);
    let waiting = pending.take("c");
    let contents: Vec<&str> = waiting.iter().map(|delivery| delivery.content.as_str()).collect();
    assert_eq!(contents, vec!["one", "two"]);
    assert_eq!(waiting[0].msg_id, "m1");
    assert_eq!(pending.take("c"), vec![]);
    assert_eq!(
        send(&mut pending, &snapshot, "c", "t", "m3", "three", Err(CodexAppServerError::Timeout)),
        Err(busy("Codex app-server request timed out"))
    );
}

#[test]
fn a_thread_is_started_in_a_workspace() {
    let start = start_thread_for(r#"{"workspace":"/w","codex_model":"m","codex_reasoning_effort":"high"}"#).unwrap();
    assert_eq!(start.cwd, "/w");
    assert_eq!(start.model.as_deref(), Some("m"));
    assert_eq!(start.reasoning_effort.as_deref(), Some("high"));
    assert_eq!(
        start_thread_in(json(r#"{"workspace":5}"#)).unwrap_err(),
        ConversationError::BadRequest {
            reason: "GPT Codex conversation requires a workspace".into()
        }
    );
    assert_eq!(
        start_thread_for("{").unwrap_err(),
        ConversationError::Internal {
            reason: "invalid conversation extra: EOF while parsing an object at line 1 column 1".into()
        }
    );
    let update = ensure_conversation_binding(start.extra, &binding("t"), &json(r#"{"canAcceptDirectInput":true}"#), 8);
    assert_eq!(update.updated_at, Some(8));
    let extra = json(&update.extra.unwrap());
    assert_eq!(extra.str_at("workspace"), Some("/w"));
    assert_eq!(extra.str_at("codex_thread_id"), Some("t"));
    assert_eq!(extra.str_at("codex_source"), Some("cli"));
    assert_eq!(extra.str_at("codex_live_state"), Some("live"));
    assert_eq!(extra.str_at("codex_thread_role"), Some("root"));
    assert_eq!(extra.get("codex_subagent_total_count").unwrap().as_i64(), Some(0));
    assert_eq!(extra.get("codex_can_accept_direct_input").unwrap().as_bool(), Some(true));
}

#[test]
fn a_conversation_is_bound_once() {
    let extra = r#"{"workspace":"/w"}"#;
    let start = match bind_step(None, extra).unwrap() {
        BindStep::Start(start) => start,
        BindStep::Bound(row) => panic!("{row:?}"),
    };
    assert_eq!(start, start_thread_for(extra).unwrap());
    let thread = json(r#"{"id":"t","cwd":"/w","createdAt":2}"#);
    let mut rows = vec![];
    let made = binding_from_thread("/h", &thread, "u", "c", "live", 7).unwrap();
    let saved = store_binding(&mut rows, &made);
    let found = rows.iter().find(|row| row.conversation_id == "c").cloned();
    assert_eq!(bind_step(found, extra), Ok(BindStep::Bound(saved)));

    assert_eq!(bind_step(Some(binding("t")), "{"), Ok(BindStep::Bound(binding("t"))));
    assert_eq!(bind_step(None, "{").unwrap_err(), start_thread_for("{").unwrap_err());
    assert_eq!(bind_step(None, "{}").unwrap_err(), start_thread_for("{}").unwrap_err());
}

#[test]
fn a_known_thread_is_bound_where_no_row_binds_it() {
    let mut snapshot = CodexAppServerSnapshot::default();
    let thread = json(r#"{"id":"t","cwd":"/w"}"#);
    snapshot.threads.insert("t", thread.clone());
    assert_eq!(thread_to_bind(&vec![], &snapshot, "t"), Some(thread));
    assert_eq!(thread_to_bind(&vec![], &snapshot, "other"), None);
    assert_eq!(thread_to_bind(&vec![binding("t")], &snapshot, "t"), None);
}

fn asked(snapshot: &mut CodexAppServerSnapshot, id: &str, method: &str, params: &str) {
    let request = CodexPendingRequest {
        request_id: json(id),
        method: method.into(),
        params: json(params),
    };
    let key = codex_native::wire::request_key(&request.request_id);
    snapshot.pending_requests.insert(&key, request);
}

#[test]
fn answers_go_to_the_request_they_are_for() {
    let mut snapshot = CodexAppServerSnapshot::default();
    asked(
        &mut snapshot,
        "7",
        "item/commandExecution/requestApproval",
        r#"{"threadId":"t","command":"ls"}"#,
    );
    asked(&mut snapshot, "\"8\"", "item/fileChange/requestApproval", r#"{"threadId":"t"}"#);
    asked(&mut snapshot, "9", "item/other", r#"{"threadId":"t"}"#);
    asked(&mut snapshot, "10", "item/fileChange/requestApproval", r#"{"threadId":"v","reason":"r"}"#);

    let listed = list_confirmations(&snapshot, "t");
    let ids: Vec<&str> = listed.iter().map(|asked| asked.id.as_str()).collect();
    assert_eq!(ids, vec!["7", "\"8\""]);
    assert_eq!(listed[0].description, "ls");
    assert_eq!(listed[1].description, "Codex requests permission to change files");
    assert_eq!(listed[1].action.as_deref(), Some("edit"));
    assert_eq!(listed[1].command_type.as_deref(), Some("edit"));
    assert_eq!(listed[0].command_type.as_deref(), Some("execute"));
    assert_eq!(list_confirmations(&snapshot, "v")[0].description, "r");
    assert!(list_confirmations(&snapshot, "none").is_empty());

    let decision = |data: &str, always: bool| {
        let answer = confirm(&snapshot, &binding("t"), "7", &json(data), always).unwrap();
        assert_eq!(print(&answer.request_id), "7");
        assert_eq!(answer.confirmation_id.as_deref(), Some("7"));
        answer.result.str_at("decision").unwrap().to_owned()
    };
    assert_eq!(decision(r#"{"value":"proceed_once"}"#, false), "accept");
    assert_eq!(decision("\"accept\"", false), "accept");
    assert_eq!(decision("\"proceed_always\"", false), "acceptForSession");
    assert_eq!(decision("\"decline\"", true), "acceptForSession");
    assert_eq!(decision("\"decline\"", false), "decline");
    assert_eq!(decision("\"whatever\"", false), "cancel");
    assert_eq!(decision("{}", false), "cancel");

    let other = confirm(&snapshot, &binding("t"), "9", &json("\"accept\""), false).unwrap();
    assert_eq!(other.confirmation_id, None);
    let gone = Err(ConversationError::BadRequest {
        reason: "Codex approval request is no longer pending".into(),
    });
    assert_eq!(confirm(&snapshot, &binding("t"), "10", &json("{}"), false), gone);
    assert_eq!(confirm(&snapshot, &binding("t"), "8", &json("{}"), false), gone);
}

#[test]
fn a_user_is_asked_in_the_stream() {
    let request = CodexPendingRequest {
        request_id: json("7"),
        method: "item/commandExecution/requestApproval".into(),
        params: json(r#"{"threadId":"t","turnId":"u","reason":"because"}"#),
    };
    let confirmation = pending_request_to_confirmation(&request).unwrap();
    assert_eq!(confirmation.description, "because");
    assert_eq!(confirmation.title, None);
    let labels: Vec<&str> = confirmation.options.iter().map(|option| option.label.as_str()).collect();
    assert_eq!(
        labels,
        vec![
            "messages.confirmation.yesAllowOnce",
            "messages.confirmation.yesAllowAlways",
            "messages.confirmation.no"
        ]
    );
    match permission_stream(&request, json(r#"{"id":"7"}"#), "c", 5) {
        Action::Broadcast { name, data } => {
            assert_eq!(name, "message.stream");
            assert_eq!(
                print(&data),
                r#"{"conversation_id":"c","created_at":5,"data":{"id":"7"},"hidden":false,"msg_id":"7","turn_id":"u","type":"permission"}"#
            );
        }
        other => panic!("{other:?}"),
    }
}

fn stored(action: &Action) -> String {
    match action {
        Action::StoreMessage(row) => format!(
            "{} {} {} {} {} {} {}",
            row.id,
            row.msg_id.as_deref().unwrap_or("-"),
            row.message_type,
            row.position.as_deref().unwrap_or("-"),
            row.status.as_deref().unwrap_or("-"),
            row.created_at,
            row.content
        ),
        other => panic!("{other:?}"),
    }
}

fn told(action: &Action) -> String {
    match action {
        Action::Broadcast { name, data } => format!("{name} {}", print(data)),
        other => panic!("{other:?}"),
    }
}

fn show(streams: &mut Streams, item: &str, completed: bool) -> Vec<Action> {
    project_item(streams, "c", "u", &json(item), 10, true, completed, 11)
}

#[test]
fn items_of_a_user() {
    let mut streams = Streams::new();
    let item = r#"{"type":"userMessage","id":"i","clientId":"m","content":[{"type":"text","text":"a"},
        {"type":"localImage","path":"/p.png"},{"type":"image"},{"type":"text"},{"type":"text","text":"b"}]}"#;
    assert_eq!(user_message_text(&json(item)), "a\n[Image: /p.png]\nb");
    assert_eq!(user_message_text(&json("{}")), "");
    let done = show(&mut streams, item, true);
    assert_eq!(stored(&done[0]), r#"m m text right finish 10 {"content":"a\n[Image: /p.png]\nb"}"#);
    assert_eq!(
        told(&done[1]),
        r#"message.userCreated {"content":"a\n[Image: /p.png]\nb","conversation_id":"c","created_at":10,"hidden":false,"msg_id":"m","position":"right","status":"finish"}"#
    );
    assert!(show(&mut streams, item, false).is_empty());
    assert!(show(&mut streams, r#"{"type":"userMessage","id":""}"#, true).is_empty());
    assert!(show(&mut streams, r#"{"type":"unknown","id":"x"}"#, true).is_empty());
    let quiet = project_item(&mut streams, "c", "u", &json(item), 10, false, true, 11);
    assert_eq!(quiet.len(), 1);
}

#[test]
fn messages_come_whole_or_in_parts() {
    let mut streams = Streams::new();
    let item = r#"{"type":"agentMessage","id":"i","text":"ab"}"#;
    let whole = show(&mut streams, item, true);
    assert_eq!(stored(&whole[0]), r#"i i text left finish 10 {"content":"ab"}"#);
    assert_eq!(
        told(&whole[1]),
        r#"message.stream {"conversation_id":"c","created_at":11,"data":{"content":"ab"},"hidden":false,"msg_id":"i","position":"left","status":"finish","turn_id":"u","type":"content"}"#
    );
    let mut delta = |part: &str| {
        let params = json(&format!("{{\"itemId\":\"i\",\"turnId\":\"u\",\"delta\":\"{part}\"}}"));
        project_notification(&mut streams, "c", "t", "item/agentMessage/delta", &params, 12)
    };
    assert_eq!(stored(&delta("a")[0]), r#"i i text left work 12 {"content":"a"}"#);
    let second = delta("b");
    assert_eq!(stored(&second[0]), r#"i i text left work 12 {"content":"ab"}"#);
    assert!(told(&second[1]).contains(r#""data":{"content":"b"}"#));
    assert_eq!(show(&mut streams, item, true).len(), 1);
    assert_eq!(show(&mut streams, item, true).len(), 2);
    assert_eq!(show(&mut streams, r#"{"type":"agentMessage","id":"i"}"#, true).len(), 1);
}

#[test]
fn thinking_comes_in_parts() {
    let mut streams = Streams::new();
    for (method, part, whole) in [
        ("item/reasoning/summaryTextDelta", "x", "x"),
        ("item/reasoning/textDelta", "y", "xy"),
    ] {
        let params = json(&format!("{{\"itemId\":\"i\",\"delta\":\"{part}\"}}"));
        let done = project_notification(&mut streams, "c", "t", method, &params, 12);
        assert_eq!(
            stored(&done[0]),
            format!("thinking-i i thinking left work 12 {{\"content\":\"{whole}\",\"status\":\"thinking\"}}")
        );
        assert!(told(&done[1]).contains(&format!("\"data\":{{\"content\":\"{part}\",\"status\":\"thinking\"}}")));
    }
    let done = show(&mut streams, r#"{"type":"reasoning","id":"i","summary":["a",5,"b"]}"#, true);
    assert_eq!(
        stored(&done[0]),
        r#"thinking-i i thinking left finish 10 {"content":"a\nb","status":"done"}"#
    );
    assert!(told(&done[1]).contains(r#""data":{"content":"","status":"done"}"#));
    assert!(show(&mut streams, r#"{"type":"reasoning","id":"i"}"#, true).is_empty());
    let params = json(r#"{"itemId":"i","delta":"z"}"#);
    let fresh = project_notification(&mut streams, "c", "t", "item/reasoning/textDelta", &params, 12);
    assert!(stored(&fresh[0]).contains(r#""content":"z""#));
}

#[test]
fn plans_and_tools() {
    let mut streams = Streams::new();
    assert!(show(&mut streams, r#"{"type":"plan","id":"p","text":""}"#, true).is_empty());
    assert_eq!(show(&mut streams, r#"{"type":"plan","id":"p","text":"do"}"#, true).len(), 2);

    let done = show(
        &mut streams,
        r#"{"type":"commandExecution","id":"x","command":"ls","cwd":"/w","status":"failed","aggregatedOutput":"o"}"#,
        true,
    );
    assert_eq!(
        stored(&done[0]),
        r#"x x tool_call left finish 10 {"args":{"command":"ls","cwd":"/w"},"call_id":"x","description":"ls","name":"shell","output":"o","status":"error"}"#
    );
    let running = show(&mut streams, r#"{"type":"commandExecution","id":"x"}"#, false);
    assert_eq!(
        stored(&running[0]),
        r#"x x tool_call left work 10 {"args":{"command":null,"cwd":null},"call_id":"x","description":null,"name":"shell","output":null,"status":"running"}"#
    );
    let change = show(&mut streams, r#"{"type":"fileChange","id":"f"}"#, true);
    assert_eq!(
        stored(&change[0]),
        r#"f f tool_call left finish 10 {"args":[],"call_id":"f","description":"File changes","name":"apply_patch","status":"completed"}"#
    );
    let tool = show(&mut streams, r#"{"type":"mcpToolCall","id":"m","status":"failed","server":"s"}"#, true);
    assert_eq!(
        stored(&tool[0]),
        r#"m m tool_call left finish 10 {"args":{},"call_id":"m","description":"s","name":"mcp","status":"completed"}"#
    );
    assert_eq!(tool.len(), 2);
}

#[test]
fn what_is_stored_for_an_item_is_read_again() {
    let mut streams = Streams::new();
    let call = r#"{"type":"mcpToolCall","id":"m","tool":"t","server":"s","arguments":{"x":[0.1,1e300,18446744073709551615]}}"#;
    let done = show(&mut streams, call, true);
    let Action::StoreMessage(row) = &done[0] else {
        panic!("{:?}", done[0]);
    };
    let content = json(&row.content);
    assert_eq!(content.str_at("call_id"), Some("m"));
    assert_eq!(content.str_at("name"), Some("t"));
    assert_eq!(content.str_at("description"), Some("s"));
    assert_eq!(content.str_at("status"), Some("completed"));
    assert!(content.get("args").unwrap().get("x").is_some());
}

#[test]
fn the_parts_add_up_however_many_there_are() {
    for method in [
        "item/agentMessage/delta",
        "item/reasoning/textDelta",
        "item/commandExecution/outputDelta",
    ] {
        let mut streams = Streams::new();
        let mut last = String::new();
        for (now, delta) in ["a", "", "bc", "d"].iter().enumerate() {
            let params = json(&format!("{{\"itemId\":\"i\",\"delta\":\"{delta}\"}}"));
            last = stored(&project_notification(&mut streams, "c", "t", method, &params, now as i64)[0]);
        }
        assert!(last.contains(" work 3 "), "{last}");
        assert!(last.contains("\"abcd\""), "{last}");
    }
}

#[test]
fn items_do_not_mix_in_one_conversation() {
    let mut streams = Streams::new();
    for (item, delta) in [("a", "1"), ("b", "2"), ("a", "3")] {
        let params = json(&format!("{{\"itemId\":\"{item}\",\"delta\":\"{delta}\"}}"));
        project_notification(&mut streams, "c", "t", "item/agentMessage/delta", &params, 1);
    }
    let done = json(r#"{"item":{"type":"agentMessage","id":"a","text":"13"}}"#);
    assert_eq!(project_notification(&mut streams, "c", "t", "item/completed", &done, 1).len(), 1);
    let params = json(r#"{"itemId":"b","delta":"4"}"#);
    let grown = project_notification(&mut streams, "c", "t", "item/agentMessage/delta", &params, 1);
    assert!(stored(&grown[0]).contains(r#""content":"24""#));
}

#[test]
fn notifications_without_what_they_need_do_nothing() {
    let mut streams = Streams::new();
    for method in [
        "turn/started",
        "turn/completed",
        "item/agentMessage/delta",
        "item/reasoning/textDelta",
        "item/commandExecution/outputDelta",
        "item/started",
        "item/completed",
        "thread/name/updated",
        "thread/status/changed",
    ] {
        assert!(project_notification(&mut streams, "c", "t", method, &Json::object(), 1).is_empty());
    }
    let failed = project_notification(&mut streams, "c", "t", "error", &json(r#"{"turnId":"u"}"#), 1);
    assert!(told(&failed[0]).contains(r#""data":{"message":"Codex turn failed"}"#));
    let failed = project_notification(&mut streams, "c", "t", "error", &json(r#"{"error":{"message":"m"}}"#), 1);
    assert!(told(&failed[0]).contains(r#""data":{"message":"m"}"#));
    let started = json(r#"{"startedAtMs":77,"item":{"type":"fileChange","id":"f"}}"#);
    assert!(stored(&project_notification(&mut streams, "c", "t", "item/started", &started, 1)[0]).contains(" work 77 "));
    let completed = json(r#"{"completedAtMs":78,"item":{"type":"fileChange","id":"f"}}"#);
    assert!(
        stored(&project_notification(&mut streams, "c", "t", "item/completed", &completed, 1)[0]).contains(" finish 78 ")
    );

    assert_eq!(notification_route("thread/started", &json(r#"{"threadId":"t"}"#)), Route::Nothing);
    assert_eq!(notification_route("error", &json("{}")), Route::Nothing);
    assert_eq!(
        notification_route("error", &json(r#"{"threadId":"t"}"#)),
        Route::Thread { thread_id: "t".into() }
    );
}

fn page(ids: &[&str], next_cursor: Option<&str>) -> Reply {
    Reply::Page {
        page: FetchedPage {
            threads: ids
                .iter()
                .map(|id| FetchedThread {
                    thread: json(&format!("{{\"id\":\"{id}\",\"status\":{{\"type\":\"active\"}}}}")),
                    cwd: Some("/w".into()),
                })
                .collect(),
            next_cursor: next_cursor.map(str::to_owned),
        },
    }
}

#[test]
fn listings_are_not_followed_for_ever() {
    let mut discovery = Discovery::new(watched_workspace("w".into(), "u", "/w".into(), true, 1));
    let mut pages = 0;
    let mut shown = 0;
    loop {
        let reply = match discovery.fetch() {
            Fetch::Nothing => break,
            Fetch::Page { .. } => {
                pages += 1;
                page(&["b", "a"], Some("more"))
            }
            Fetch::Descendants { .. } => page(&["c"], Some("more")),
            _ => Reply::Failed,
        };
        let (next, more) = discovery.step(reply);
        discovery = next;
        shown += more.len();
    }
    assert_eq!(pages, 40);
    assert_eq!(shown, 3);
}

#[test]
fn active_threads_are_resumed_in_order_and_once() {
    let mut discovery = Discovery::new(watched_workspace("w".into(), "u", "/w".into(), true, 1));
    let mut resumed = vec![];
    loop {
        let reply = match discovery.fetch() {
            Fetch::Nothing => break,
            Fetch::Page { archived: false, .. } => page(&["b", "c", "a"], None),
            Fetch::Page { .. } => page(&["a", "d"], None),
            Fetch::Resume { thread_id } => {
                resumed.push(thread_id);
                Reply::Failed
            }
            _ => Reply::Failed,
        };
        discovery = discovery.step(reply).0;
    }
    assert_eq!(resumed, vec!["a", "b", "c", "d"]);
}

#[test]
fn a_failed_catalog_ends_the_catalog() {
    let mut discovery = Discovery::new(watched_workspace("w".into(), "u", "/w".into(), false, 1));
    discovery = discovery.step(Reply::Failed).0;
    assert_eq!(
        discovery.fetch(),
        Fetch::Page {
            cursor: None,
            archived: false
        }
    );
    let (next, shown) = discovery.step(page(&["a"], Some("x")));
    assert_eq!(shown.len(), 1);
    assert_eq!(
        next.fetch(),
        Fetch::Page {
            cursor: Some("x".into()),
            archived: false
        }
    );
    let (next, shown) = next.step(Reply::Failed);
    assert!(shown.is_empty());
    assert_eq!(
        next.fetch(),
        Fetch::Descendants {
            root_thread_id: "a".into(),
            cursor: None,
            archived: false
        }
    );
}
