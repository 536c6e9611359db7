//! The connection to the app-server, frame by frame.
use codex_native::calls::{
    handshake, handshake_envelope, loaded_thread_ids, send_step, server_identity, steer_step, take_thread, thread_page,
    turn_started, SendStep, SteerStep, ThreadListing,
};
use codex_native::gateway::{launch_step, thread_status_name, CodexAppServerConfig, LaunchStep};
use codex_native::json::Json;
use codex_native::paths::{control_socket_path, default_codex_home};
use codex_native::protocol::{
    CodexAppServerError, CodexAppServerEvent, CodexAppServerSnapshot, CodexSendReceipt, CodexThreadRuntime,
};
use codex_native::rpc::{
    initialize_frame, initialized_frame, parse_rpc_response, response_frame, rpc_frame, thread_list_params,
    thread_read_params, thread_resume_params, thread_start_params, turn_interrupt_params, turn_start_params,
    turn_steer_params, Connection, Incoming,
};
use codex_native::wire::{parse, print, request_key};

fn json(text: &str) -> Json {
    parse(text).unwrap()
}

fn text(json: &Json) -> String {
    print(json)
}

#[test]
fn control_socket_uses_codex_home() {
    assert_eq!(
        control_socket_path("/tmp/codex-home"),
        "/tmp/codex-home/app-server-control/app-server-control.sock"
    );
}

#[test]
fn turn_race_errors_are_classified_for_transparent_retry() {
    let error = CodexAppServerError::Rpc {
        code: -32600,
        message: "expected active turn id `a` but found `b`".into(),
        data: None,
    };
    assert!(error.is_turn_race());
}

#[test]
fn notification_updates_active_turn_snapshot() {
    let mut snapshot = CodexAppServerSnapshot::default();
    snapshot.apply_notification(
        "turn/started",
        &json(r#"{"threadId": "thread-1", "turn": {"id": "turn-1"}}"#),
    );
    assert_eq!(
        snapshot
            .runtimes
            .get("thread-1")
            .and_then(|runtime| runtime.active_turn_id.as_deref()),
        Some("turn-1")
    );
}

fn reply(connection: &mut Connection, snapshot: &mut CodexAppServerSnapshot, id: i64, result: &str) -> Json {
    let frame = format!("{{\"id\":{id},\"result\":{result}}}");
    match connection.receive(snapshot, &frame).unwrap() {
        Incoming::Reply { id: answered, outcome } => {
            assert_eq!(answered, id);
            outcome.unwrap()
        }
        other => panic!("{other:?}"),
    }
}

#[test]
fn unix_gateway_initializes_steers_starts_and_answers_approval() {
    let initialize = initialize_frame("1.0.0");
    assert_eq!(initialize.str_at("method"), Some("initialize"));
    let result = handshake(r#"{"id": 0, "result": {"userAgent": "mock-codex", "codexHome": "/tmp/codex-home"}}"#)
        .unwrap()
        .unwrap();
    assert_eq!(initialized_frame().str_at("method"), Some("initialized"));
    let (user_agent, codex_home) = server_identity(&result).unwrap();
    assert_eq!(user_agent, "mock-codex");
    assert_eq!(codex_home, "/tmp/codex-home");

    let mut snapshot = CodexAppServerSnapshot::default();
    let mut connection = Connection::new();
    snapshot.connect(codex_home, user_agent);
    assert!(snapshot.connected);

    let (read, frame) = connection.begin_rpc("thread/read", thread_read_params("thread-1", true));
    assert_eq!(frame.str_at("method"), Some("thread/read"));
    let response = reply(
        &mut connection,
        &mut snapshot,
        read,
        r#"{"thread": {"id": "thread-1", "cwd": "/tmp/project", "status": {"type": "active", "activeFlags": []},
            "turns": [{"id": "turn-1", "status": "inProgress", "items": []}]}}"#,
    );
    take_thread(&mut snapshot, "thread/read", &response).unwrap();
    assert_eq!(snapshot.active_turn_id("thread-1").as_deref(), Some("turn-1"));

    let turn_id = match send_step(&snapshot, "thread-1") {
        SendStep::Steer { turn_id } => turn_id,
        SendStep::Start => panic!("a turn is running"),
    };
    let (steer, frame) = connection.begin_rpc(
        "turn/steer",
        turn_steer_params("thread-1", "msg-steer", "fix the test", &turn_id),
    );
    assert_eq!(frame.str_at("method"), Some("turn/steer"));
    let params = frame.get("params").unwrap();
    assert_eq!(params.str_at("expectedTurnId"), Some("turn-1"));
    assert_eq!(params.str_at("clientUserMessageId"), Some("msg-steer"));
    let response = reply(&mut connection, &mut snapshot, steer, r#"{"turnId": "turn-1"}"#);
    assert_eq!(
        steer_step(Ok(response)),
        SteerStep::Done(CodexSendReceipt {
            turn_id: "turn-1".into(),
            steered: true,
        })
    );

    let incoming = connection
        .receive(
            &mut snapshot,
            r#"{"method": "turn/completed", "params": {"threadId": "thread-1", "turn": {"id": "turn-1"}}}"#,
        )
        .unwrap();
    assert!(matches!(incoming.event(), Some(CodexAppServerEvent::Notification { .. })));
    assert_eq!(snapshot.active_turn_id("thread-1"), None);

    assert_eq!(send_step(&snapshot, "thread-1"), SendStep::Start);
    let (start, frame) = connection.begin_rpc("turn/start", turn_start_params("thread-1", "msg-start", "continue"));
    assert_eq!(frame.str_at("method"), Some("turn/start"));
    let params = frame.get("params").unwrap();
    assert_eq!(params.str_at("clientUserMessageId"), Some("msg-start"));
    let response = reply(&mut connection, &mut snapshot, start, r#"{"turn": {"id": "turn-2"}}"#);
    assert_eq!(
        turn_started(&mut snapshot, "thread-1", &response).unwrap(),
        CodexSendReceipt {
            turn_id: "turn-2".into(),
            steered: false,
        }
    );
    assert_eq!(snapshot.active_turn_id("thread-1").as_deref(), Some("turn-2"));

    let incoming = connection
        .receive(
            &mut snapshot,
            r#"{"id": "approval-1", "method": "item/commandExecution/requestApproval",
                "params": {"threadId": "thread-1", "turnId": "turn-2", "command": "cargo test"}}"#,
        )
        .unwrap();
    let request = match incoming.event() {
        Some(CodexAppServerEvent::ServerRequest(request)) => request,
        other => panic!("{other:?}"),
    };
    assert!(snapshot.pending_requests.get("\"approval-1\"").is_some());
    let approval = response_frame(request.request_id.clone(), json(r#"{"decision": "accept"}"#));
    assert_eq!(approval.str_at("id"), Some("approval-1"));
    assert_eq!(approval.get_in("result", "decision").unwrap().as_str(), Some("accept"));
    snapshot.forget_request(&request.request_id);
    assert!(snapshot.pending_requests.get("\"approval-1\"").is_none());
}

#[test]
fn the_opening_frame_names_the_client() {
    assert_eq!(
        text(&initialize_frame("2.3.4")),
        concat_str(&[
            r#"{"id":0,"method":"initialize","params":{"capabilities":{"experimentalApi":true,"#,
            r#""mcpServerOpenaiFormElicitation":false},"clientInfo":{"name":"aionui","title":"AionUI","version":"2.3.4"}}}"#,
        ])
    );
    assert_eq!(text(&initialized_frame()), r#"{"method":"initialized"}"#);
}

fn concat_str(parts: &[&str]) -> String {
    parts.iter().map(|part| part.to_string()).collect()
}

#[test]
fn frames_before_the_opening_reply_are_passed_over() {
    assert_eq!(handshake(r#"{"method":"configWarning","params":{}}"#), Ok(None));
    assert_eq!(handshake(r#"{"id":1,"result":{}}"#), Ok(None));
    assert_eq!(
        handshake_envelope(&json(r#"{"id":0,"error":{"code":5,"message":"no"}}"#)),
        Err(CodexAppServerError::Rpc {
            code: 5,
            message: "no".into(),
            data: None,
        })
    );
    assert!(matches!(handshake("{"), Err(CodexAppServerError::InvalidResponse(_))));
}

#[test]
fn an_opening_reply_needs_both_names() {
    assert_eq!(
        server_identity(&json(r#"{"codexHome":"/h"}"#)),
        Err(CodexAppServerError::InvalidResponse("initialize omitted userAgent".into()))
    );
    assert_eq!(
        server_identity(&json(r#"{"userAgent":"a","codexHome":1}"#)),
        Err(CodexAppServerError::InvalidResponse("initialize omitted codexHome".into()))
    );
}

#[test]
fn parameters_of_calls() {
    assert_eq!(
        text(&thread_list_params(Some("c"), 50, true)),
        concat_str(&[
            r#"{"archived":true,"cursor":"c","limit":50,"sortDirection":"desc","sortKey":"updated_at","#,
            r#""sourceKinds":["cli","vscode","exec","appServer","subAgent","subAgentReview","subAgentCompact","#,
            r#""subAgentThreadSpawn","subAgentOther","unknown"]}"#,
        ])
    );
    assert!(thread_list_params(None, 100, false).get("cursor") == Some(&Json::Null));
    assert_eq!(text(&thread_read_params("t", false)), r#"{"includeTurns":false,"threadId":"t"}"#);
    assert_eq!(text(&thread_resume_params("t")), r#"{"threadId":"t"}"#);
    assert_eq!(text(&thread_start_params("/w")), r#"{"cwd":"/w"}"#);
    assert_eq!(text(&turn_interrupt_params("t", "u")), r#"{"threadId":"t","turnId":"u"}"#);
    assert_eq!(
        text(&turn_start_params("t", "m", "hi")),
        r#"{"clientUserMessageId":"m","input":[{"text":"hi","type":"text"}],"threadId":"t"}"#
    );
    assert_eq!(
        text(&rpc_frame(4, "x/y", Json::object())),
        r#"{"id":4,"method":"x/y","params":{}}"#
    );
}

#[test]
fn replies_of_calls() {
    assert_eq!(
        parse_rpc_response(&json(r#"{"id":1,"error":{"data":{"a":1}},"result":{}}"#)),
        Err(CodexAppServerError::Rpc {
            code: -32_000,
            message: "unknown Codex app-server error".into(),
            data: Some(json(r#"{"a":1}"#)),
        })
    );
    assert_eq!(
        parse_rpc_response(&json(r#"{"id":1}"#)),
        Err(CodexAppServerError::InvalidResponse("RPC response omitted result".into()))
    );
    assert_eq!(parse_rpc_response(&json(r#"{"id":1,"result":null}"#)), Ok(Json::Null));
}

#[test]
fn a_reply_is_given_out_once() {
    let mut snapshot = CodexAppServerSnapshot::default();
    let mut connection = Connection::new();
    assert!(connection.has_room());
    let (first, _) = connection.begin_rpc("a", Json::object());
    let (second, _) = connection.begin_rpc("b", Json::object());
    assert_eq!((first, second), (1, 2));
    let frame = r#"{"id":1,"result":7}"#;
    assert!(matches!(
        connection.receive(&mut snapshot, frame),
        Ok(Incoming::Reply { id: 1, outcome: Ok(_) })
    ));
    assert_eq!(connection.receive(&mut snapshot, frame), Ok(Incoming::Stray));
    assert!(matches!(
        connection.receive(&mut snapshot, r#"{"id":2,"error":{}}"#),
        Ok(Incoming::Reply { id: 2, outcome: Err(_) })
    ));
}

#[test]
fn frames_are_told_apart() {
    let mut snapshot = CodexAppServerSnapshot::default();
    let mut connection = Connection::new();
    assert_eq!(connection.receive(&mut snapshot, "{}"), Ok(Incoming::Other));
    assert_eq!(connection.receive(&mut snapshot, r#"{"id":9,"result":1}"#), Ok(Incoming::Stray));
    assert!(matches!(
        connection.receive(&mut snapshot, "no document"),
        Err(CodexAppServerError::InvalidResponse(_))
    ));
    match connection.receive(&mut snapshot, r#"{"id":{"k":1},"method":5}"#).unwrap() {
        Incoming::Request(request) => {
            assert_eq!(request.method, "");
            assert_eq!(text(&request.params), "{}");
            assert_eq!(request_key(&request.request_id), r#"{"k":1}"#);
        }
        other => panic!("{other:?}"),
    }
    assert!(snapshot.pending_requests.get(r#"{"k":1}"#).is_some());
    let resolved = connection
        .receive(&mut snapshot, r#"{"method":"serverRequest/resolved","params":{"requestId":{"k":1}}}"#)
        .unwrap();
    assert!(matches!(resolved, Incoming::Notification { .. }));
    assert!(snapshot.pending_requests.get(r#"{"k":1}"#).is_none());
}

#[test]
fn notifications_change_what_is_known() {
    let mut snapshot = CodexAppServerSnapshot::default();
    snapshot.apply_notification(
        "thread/started",
        &json(r#"{"thread":{"id":"t","status":{"type":"idle"}}}"#),
    );
    assert_eq!(
        snapshot.runtimes.get("t"),
        Some(&CodexThreadRuntime {
            active_turn_id: None,
            status: "idle".into(),
        })
    );
    assert!(snapshot.threads.get("t").is_some());
    snapshot.apply_notification("turn/started", &json(r#"{"threadId":"t","turn":{"id":"u"}}"#));
    snapshot.apply_notification("thread/started", &json(r#"{"thread":{"id":"t"}}"#));
    assert_eq!(snapshot.active_turn_id("t").as_deref(), Some("u"));
    snapshot.apply_notification(
        "thread/status/changed",
        &json(r#"{"threadId":"t","status":{"type":"systemError"}}"#),
    );
    assert_eq!(
        snapshot.runtimes.get("t"),
        Some(&CodexThreadRuntime {
            active_turn_id: Some("u".into()),
            status: "systemError".into(),
        })
    );
    snapshot.apply_notification("thread/status/changed", &json(r#"{"threadId":"new"}"#));
    assert_eq!(snapshot.runtimes.get("new").unwrap().status, "unknown");
    snapshot.apply_notification("turn/completed", &json(r#"{"threadId":"t"}"#));
    assert_eq!(
        snapshot.runtimes.get("t"),
        Some(&CodexThreadRuntime {
            active_turn_id: None,
            status: "idle".into(),
        })
    );
    snapshot.apply_notification("turn/started", &json(r#"{"threadId":"t"}"#));
    snapshot.apply_notification("something/else", &json(r#"{"threadId":"t"}"#));
    assert_eq!(snapshot.active_turn_id("t"), None);
    snapshot.disconnect();
    assert!(!snapshot.connected);
    assert!(snapshot.runtimes.get("t").is_none());
    assert!(snapshot.threads.get("t").is_some());
}

#[test]
fn the_last_turn_in_progress_is_the_active_one() {
    let mut snapshot = CodexAppServerSnapshot::default();
    let thread = json(
        r#"{"id":"t","status":{"type":"active"},"turns":[{"id":"a","status":"inProgress"},
            {"id":"b","status":"inProgress"},{"id":"c","status":"completed"}]}"#,
    );
    snapshot.record_thread_snapshot(&thread);
    assert_eq!(snapshot.active_turn_id("t").as_deref(), Some("b"));
    snapshot.record_thread_snapshot(&json(r#"{"id":"t","status":{"type":"active"}}"#));
    assert_eq!(snapshot.active_turn_id("t").as_deref(), Some("b"));
    snapshot.record_thread_snapshot(&json(
        r#"{"id":"t","status":{"type":"idle"},"turns":[{"id":"a","status":"inProgress"}]}"#,
    ));
    assert_eq!(snapshot.active_turn_id("t"), None);
    snapshot.record_thread_snapshot(&json(r#"{"status":{"type":"active"}}"#));
    assert_eq!(thread_status_name(None), "unknown");
    assert_eq!(thread_status_name(Some(&json(r#"{"type":3}"#))), "unknown");
}

#[test]
fn steering_that_is_refused() {
    let refused = |message: &str, data: Option<Json>| {
        steer_step(Err(CodexAppServerError::Rpc {
            code: 1,
            message: message.into(),
            data,
        }))
    };
    let not_steerable = SteerStep::Failed(CodexAppServerError::ActiveTurnNotSteerable);
    assert_eq!(refused("cannot steer a review turn", None), not_steerable);
    assert_eq!(refused("you cannot steer a compact turn now", None), not_steerable);
    assert_eq!(
        refused("x", Some(json(r#"{"codexErrorInfo":{"type":"activeTurnNotSteerable"}}"#))),
        not_steerable
    );
    assert_eq!(steer_step(Err(CodexAppServerError::ActiveTurnNotSteerable)), not_steerable);
    assert_eq!(refused("there is no active turn to steer", None), SteerStep::Start);
    assert!(matches!(refused("other", Some(Json::Null)), SteerStep::Failed(CodexAppServerError::Rpc { .. })));
    assert_eq!(
        steer_step(Err(CodexAppServerError::Timeout)),
        SteerStep::Failed(CodexAppServerError::Timeout)
    );
    assert_eq!(
        steer_step(Ok(json("{}"))),
        SteerStep::Failed(CodexAppServerError::InvalidResponse("turn/steer omitted turnId".into()))
    );
    let mut snapshot = CodexAppServerSnapshot::default();
    assert_eq!(
        turn_started(&mut snapshot, "t", &json(r#"{"turn":{}}"#)),
        Err(CodexAppServerError::InvalidResponse("turn/start omitted turn.id".into()))
    );
    assert!(snapshot.runtimes.get("t").is_none());
}

#[test]
fn errors_read_as_sentences() {
    let rpc = CodexAppServerError::Rpc {
        code: -32601,
        message: "nope".into(),
        data: None,
    };
    assert_eq!(rpc.message(), "Codex app-server RPC -32601: nope");
    assert_eq!(
        CodexAppServerError::Unavailable("gone".into()).message(),
        "Codex app-server is unavailable: gone"
    );
    assert_eq!(CodexAppServerError::Timeout.message(), "Codex app-server request timed out");
    assert_eq!(
        CodexAppServerError::InvalidResponse("x".into()).message(),
        "Invalid Codex app-server response: x"
    );
    assert_eq!(
        CodexAppServerError::ActiveTurnNotSteerable.message(),
        "Codex turn cannot currently accept direct input"
    );
    let least = CodexAppServerError::Rpc {
        code: i64::MIN,
        message: "".into(),
        data: None,
    };
    assert_eq!(least.message(), "Codex app-server RPC -9223372036854775808: ");
}

#[test]
fn listings_come_page_by_page() {
    let mut listing = ThreadListing::new();
    listing.add_page(&json(r#"{"data":[{"id":"a"},{"id":"b"}],"nextCursor":"n"}"#)).unwrap();
    assert!(!listing.complete);
    assert_eq!(listing.cursor.as_deref(), Some("n"));
    assert_eq!(
        listing.add_page(&json(r#"{"nextCursor":"n"}"#)),
        Err(CodexAppServerError::InvalidResponse("thread/list omitted data".into()))
    );
    listing.add_page(&json(r#"{"data":[{"id":"c"}],"nextCursor":null}"#)).unwrap();
    assert!(listing.complete);
    let ids: Vec<&str> = listing.threads.iter().filter_map(|thread| thread.str_at("id")).collect();
    assert_eq!(ids, vec!["a", "b", "c"]);
    let page = thread_page(&json(r#"{"data":[],"nextCursor":4}"#)).unwrap();
    assert_eq!(page.next_cursor, None);
}

#[test]
fn loaded_threads_are_the_strings_listed() {
    assert_eq!(
        loaded_thread_ids(&json(r#"{"data":["a",1,"b",null]}"#)),
        Ok(vec!["a".to_owned(), "b".to_owned()])
    );
    assert_eq!(
        loaded_thread_ids(&json(r#"{"data":"a"}"#)),
        Err(CodexAppServerError::InvalidResponse("thread/loaded/list omitted data".into()))
    );
    let mut snapshot = CodexAppServerSnapshot::default();
    assert_eq!(
        take_thread(&mut snapshot, "thread/resume", &json("{}")),
        Err(CodexAppServerError::InvalidResponse("thread/resume omitted thread".into()))
    );
}

#[test]
fn the_home_comes_from_the_environment() {
    assert_eq!(default_codex_home(Some("/c".into()), Some("/h".into())), "/c");
    assert_eq!(default_codex_home(None, Some("/h".into())), "/h/.codex");
    assert_eq!(default_codex_home(None, None), ".codex");
    let config = CodexAppServerConfig::from_environment(None, Some("/h/".into()));
    assert_eq!(config.codex_home, "/h/.codex");
    assert_eq!(config.codex_binary, "codex");
}

#[test]
fn a_launched_server_is_tried_so_often() {
    let mut failed = 0;
    let mut waited = 0;
    while let LaunchStep::Try { wait_millis } = launch_step(failed) {
        failed += 1;
        waited += wait_millis;
    }
    assert_eq!((failed, waited), (50, 5_000));
    assert_eq!(launch_step(0), LaunchStep::Try { wait_millis: 100 });
    assert_eq!(launch_step(49), LaunchStep::Try { wait_millis: 100 });
    assert_eq!(launch_step(50), LaunchStep::GiveUp);
    assert_eq!(launch_step(usize::MAX), LaunchStep::GiveUp);
}
