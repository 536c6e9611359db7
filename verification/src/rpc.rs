//! Calls of the Codex app-server: the frames that are sent, and what the frames that come back
//! mean.
use vstd::prelude::*;

use crate::json::{i64_in, object, opt_str_tree, opt_tree, Json, Tree};
use crate::protocol::{
    opt_json, CodexAppServerError, CodexAppServerEvent, CodexAppServerSnapshot, CodexPendingRequest, ErrorView, EventView,
    RequestView, SnapshotView,
};
use crate::text::opt_chars;
use crate::wire::{parse, parsed, request_key};

verus! {

/// The code of an error that names none.
pub const UNKNOWN_ERROR_CODE: i64 = -32_000;

pub open spec fn rpc_tree(id: i64, method: Seq<char>, params: Tree) -> Tree {
    object().put("id"@, Tree::Int(id)).put("method"@, Tree::Str(method)).put("params"@, params)
}

/// The frame of a call.
pub fn rpc_frame(id: i64, method: &str, params: Json) -> (r: Json)
    ensures
        r@ == rpc_tree(id, method@, params@),
{
    Json::object().put("id", Json::Int(id)).put("method", Json::str(method)).put("params", params)
}

/// The frame that answers a request of the app-server.
pub fn response_frame(request_id: Json, result: Json) -> (r: Json)
    ensures
        r@ == object().put("id"@, request_id@).put("result"@, result@),
        r@.get("id"@) == Some(request_id@),
        r@.get("result"@) == Some(result@),
        r@.get("method"@) is None,
{
    proof {
        lemma_frame_names();
    }
    Json::object().put("id", request_id).put("result", result)
}

pub open spec fn initialize_tree(version: Seq<char>) -> Tree {
    rpc_tree(
        0,
        "initialize"@,
        object().put(
            "clientInfo"@,
            object().put("name"@, Tree::Str("aionui"@)).put("title"@, Tree::Str("AionUI"@)).put(
                "version"@,
                Tree::Str(version),
            ),
        ).put(
            "capabilities"@,
            object().put("experimentalApi"@, Tree::Bool(true)).put(
                "mcpServerOpenaiFormElicitation"@,
                Tree::Bool(false),
            ),
        ),
    )
}

/// The frame that opens a connection.
pub fn initialize_frame(version: &str) -> (r: Json)
    ensures
        r@ == initialize_tree(version@),
{
    let client = Json::object().put("name", Json::str("aionui")).put("title", Json::str("AionUI")).put(
        "version",
        Json::str(version),
    );
    let capabilities = Json::object().put("experimentalApi", Json::Bool(true)).put(
        "mcpServerOpenaiFormElicitation",
        Json::Bool(false),
    );
    rpc_frame(
        0,
        "initialize",
        Json::object().put("clientInfo", client).put("capabilities", capabilities),
    )
}

/// The frame that says that the opening reply has come.
pub fn initialized_frame() -> (r: Json)
    ensures
        r@ == object().put("method"@, Tree::Str("initialized"@)),
        r@.get("method"@) == Some(Tree::Str("initialized"@)),
        r@.get("id"@) is None,
{
    proof {
        lemma_frame_names();
    }
    Json::object().put("method", Json::str("initialized"))
}

pub open spec fn text_input(text: Seq<char>) -> Tree {
    Tree::Array(seq![object().put("type"@, Tree::Str("text"@)).put("text"@, Tree::Str(text))])
}

fn input(text: &str) -> (r: Json)
    ensures
        r@ == text_input(text@),
{
    let item = Json::object().put("type", Json::str("text")).put("text", Json::str(text));
    let items = vec![item];
    proof {
        assert(Json::Array(items)@->Array_0 =~= text_input(text@)->Array_0);
    }
    Json::Array(items)
}

pub open spec fn turn_start_tree(thread_id: Seq<char>, client_message_id: Seq<char>, text: Seq<char>) -> Tree {
    object().put("threadId"@, Tree::Str(thread_id)).put(
        "clientUserMessageId"@,
        Tree::Str(client_message_id),
    ).put("input"@, text_input(text))
}

/// The parameters of `turn/start`.
pub fn turn_start_params(thread_id: &str, client_message_id: &str, text: &str) -> (r: Json)
    ensures
        r@ == turn_start_tree(thread_id@, client_message_id@, text@),
{
    Json::object().put("threadId", Json::str(thread_id)).put(
        "clientUserMessageId",
        Json::str(client_message_id),
    ).put("input", input(text))
}

/// The parameters of `turn/steer`: those of `turn/start`, and the turn that the input is for.
pub fn turn_steer_params(thread_id: &str, client_message_id: &str, text: &str, turn_id: &str) -> (r: Json)
    ensures
        r@ == turn_start_tree(thread_id@, client_message_id@, text@).put(
            "expectedTurnId"@,
            Tree::Str(turn_id@),
        ),
        r@.get("expectedTurnId"@) == Some(Tree::Str(turn_id@)),
        r@.get("threadId"@) == Some(Tree::Str(thread_id@)),
        r@.get("clientUserMessageId"@) == Some(Tree::Str(client_message_id@)),
        r@.get("input"@) == turn_start_tree(thread_id@, client_message_id@, text@).get("input"@),
{
    proof {
        lemma_turn_names();
    }
    turn_start_params(thread_id, client_message_id, text).put("expectedTurnId", Json::str(turn_id))
}

/// The kinds of sources that threads are listed from.
pub open spec fn source_kinds() -> Seq<Seq<char>> {
    seq![
        "cli"@,
        "vscode"@,
        "exec"@,
        "appServer"@,
        "subAgent"@,
        "subAgentReview"@,
        "subAgentCompact"@,
        "subAgentThreadSpawn"@,
        "subAgentOther"@,
        "unknown"@,
    ]
}

pub open spec fn thread_list_tree(cursor: Option<Seq<char>>, limit: u32, archived: bool) -> Tree {
    object().put("cursor"@, opt_str_tree(cursor)).put("limit"@, Tree::Int(limit as i64)).put(
        "sortKey"@,
        Tree::Str("updated_at"@),
    ).put("sortDirection"@, Tree::Str("desc"@)).put(
        "sourceKinds"@,
        Tree::Array(source_kinds().map_values(|kind: Seq<char>| Tree::Str(kind))),
    ).put("archived"@, Tree::Bool(archived))
}

/// The parameters of `thread/list`: a page of the threads, the one updated last first.
pub fn thread_list_params(cursor: Option<&str>, limit: u32, archived: bool) -> (r: Json)
    ensures
        r@ == thread_list_tree(opt_chars(cursor), limit, archived),
{
    let kinds = vec![
        Json::str("cli"),
        Json::str("vscode"),
        Json::str("exec"),
        Json::str("appServer"),
        Json::str("subAgent"),
        Json::str("subAgentReview"),
        Json::str("subAgentCompact"),
        Json::str("subAgentThreadSpawn"),
        Json::str("subAgentOther"),
        Json::str("unknown"),
    ];
    proof {
        assert(Json::Array(kinds)@->Array_0 =~= source_kinds().map_values(
            |kind: Seq<char>| Tree::Str(kind),
        ));
    }
    Json::object().put("cursor", Json::opt_str(cursor)).put("limit", Json::Int(limit as i64)).put(
        "sortKey",
        Json::str("updated_at"),
    ).put("sortDirection", Json::str("desc")).put("sourceKinds", Json::Array(kinds)).put(
        "archived",
        Json::Bool(archived),
    )
}

/// The parameters of `thread/read`.
pub fn thread_read_params(thread_id: &str, include_turns: bool) -> (r: Json)
    ensures
        r@ == object().put("threadId"@, Tree::Str(thread_id@)).put("includeTurns"@, Tree::Bool(include_turns)),
        r@.get("threadId"@) == Some(Tree::Str(thread_id@)),
        r@.get("includeTurns"@) == Some(Tree::Bool(include_turns)),
{
    proof {
        reveal_strlit("threadId");
        reveal_strlit("includeTurns");
        assert("threadId"@.len() != "includeTurns"@.len());
    }
    Json::object().put("threadId", Json::str(thread_id)).put("includeTurns", Json::Bool(include_turns))
}

/// The parameters of `thread/resume`.
pub fn thread_resume_params(thread_id: &str) -> (r: Json)
    ensures
        r@ == object().put("threadId"@, Tree::Str(thread_id@)),
        r@.get("threadId"@) == Some(Tree::Str(thread_id@)),
{
    Json::object().put("threadId", Json::str(thread_id))
}

/// The parameters of `thread/start`.
pub fn thread_start_params(cwd: &str) -> (r: Json)
    ensures
        r@ == object().put("cwd"@, Tree::Str(cwd@)),
        r@.get("cwd"@) == Some(Tree::Str(cwd@)),
{
    Json::object().put("cwd", Json::str(cwd))
}

/// The parameters of `turn/interrupt`.
pub fn turn_interrupt_params(thread_id: &str, turn_id: &str) -> (r: Json)
    ensures
        r@ == object().put("threadId"@, Tree::Str(thread_id@)).put("turnId"@, Tree::Str(turn_id@)),
        r@.get("threadId"@) == Some(Tree::Str(thread_id@)),
        r@.get("turnId"@) == Some(Tree::Str(turn_id@)),
{
    proof {
        reveal_strlit("threadId");
        reveal_strlit("turnId");
        assert("threadId"@.len() != "turnId"@.len());
    }
    Json::object().put("threadId", Json::str(thread_id)).put("turnId", Json::str(turn_id))
}

/// A value that came, or the error that came in its place.
pub open spec fn outcome(r: Result<Json, CodexAppServerError>) -> Result<Tree, ErrorView> {
    match r {
        Ok(json) => Ok(json@),
        Err(error) => Err(error@),
    }
}

/// The result that an envelope carries. An error in it goes before a result.
pub open spec fn rpc_result(envelope: Tree) -> Result<Tree, ErrorView> {
    match (envelope.get("error"@), envelope.get("result"@)) {
        (Some(error), _) => Err(
            ErrorView::Rpc {
                code: match i64_in(error.get("code"@)) {
                    Some(code) => code,
                    None => UNKNOWN_ERROR_CODE,
                },
                message: match error.str_at("message"@) {
                    Some(message) => message,
                    None => "unknown Codex app-server error"@,
                },
                data: error.get("data"@),
            },
        ),
        (None, Some(result)) => Ok(result),
        (None, None) => Err(ErrorView::InvalidResponse("RPC response omitted result"@)),
    }
}

pub(crate) fn cloned(json: Option<&Json>) -> (r: Option<Json>)
    ensures
        opt_json(r) == opt_tree(json),
{
    match json {
        Some(json) => Some(json.clone()),
        None => None,
    }
}

/// The result that an envelope carries.
pub fn parse_rpc_response(envelope: &Json) -> (r: Result<Json, CodexAppServerError>)
    ensures
        outcome(r) == rpc_result(envelope@),
{
    if let Some(error) = envelope.get("error") {
        let code: i64 = match error.get("code") {
            Some(code) => match code.as_i64() {
                Some(code) => code,
                None => UNKNOWN_ERROR_CODE,
            },
            None => UNKNOWN_ERROR_CODE,
        };
        let message = match error.str_at("message") {
            Some(message) => message.to_owned(),
            None => "unknown Codex app-server error".to_owned(),
        };
        return Err(CodexAppServerError::Rpc { code, message, data: cloned(error.get("data")) });
    }
    match envelope.get("result") {
        Some(result) => Ok(result.clone()),
        None => Err(CodexAppServerError::InvalidResponse("RPC response omitted result".to_owned())),
    }
}

/// The calls of one connection that wait for their replies.
pub struct Connection {
    next_id: i64,
    waiting: Vec<i64>,
}

pub struct ConnectionView {
    pub next_id: int,
    pub waiting: Set<i64>,
}

impl View for Connection {
    type V = ConnectionView;

    closed spec fn view(&self) -> ConnectionView {
        ConnectionView { next_id: self.next_id as int, waiting: self.waiting@.to_set() }
    }
}

impl Connection {
    #[verifier::type_invariant]
    spec fn ids_are_old(self) -> bool {
        &&& 1 <= self.next_id
        &&& forall|i: int| 0 <= i < self.waiting@.len() ==> 1 <= #[trigger] self.waiting@[i] < self.next_id
    }
}

/// What a frame from the app-server is.
#[derive(Debug, PartialEq)]
pub enum Incoming {
    /// The reply to a call that waits for it.
    Reply { id: i64, outcome: Result<Json, CodexAppServerError> },
    /// A reply that nothing waits for.
    Stray,
    Request(CodexPendingRequest),
    Notification { method: String, params: Json },
    /// None of these.
    Other,
}

pub enum IncomingView {
    Reply { id: i64, outcome: Result<Tree, ErrorView> },
    Stray,
    Request(RequestView),
    Notification { method: Seq<char>, params: Tree },
    Other,
}

impl View for Incoming {
    type V = IncomingView;

    open spec fn view(&self) -> IncomingView {
        match self {
            Incoming::Reply { id, outcome } => IncomingView::Reply {
                id: *id,
                outcome: crate::rpc::outcome(*outcome),
            },
            Incoming::Stray => IncomingView::Stray,
            Incoming::Request(request) => IncomingView::Request(request@),
            Incoming::Notification { method, params } => IncomingView::Notification {
                method: method@,
                params: params@,
            },
            Incoming::Other => IncomingView::Other,
        }
    }
}

/// A reply: it has an integer for its id, and a result or an error.
pub open spec fn is_reply(envelope: Tree) -> bool {
    i64_in(envelope.get("id"@)) is Some && (envelope.get("result"@) is Some || envelope.get("error"@) is Some)
}

/// The parameters of a request or a notification; none count as an empty object.
pub open spec fn params_of(envelope: Tree) -> Tree {
    match envelope.get("params"@) {
        Some(params) => params,
        None => object(),
    }
}

/// What a frame is, where these calls wait for replies.
pub open spec fn meaning(envelope: Tree, waiting: Set<i64>) -> IncomingView {
    let method = envelope.str_at("method"@);
    if is_reply(envelope) {
        let id = i64_in(envelope.get("id"@))->0;
        if waiting.contains(id) {
            IncomingView::Reply { id, outcome: rpc_result(envelope) }
        } else {
            IncomingView::Stray
        }
    } else if envelope.get("id"@) is Some && envelope.get("method"@) is Some {
        IncomingView::Request(
            RequestView {
                request_id: envelope.get("id"@)->0,
                method: match method {
                    Some(method) => method,
                    None => Seq::empty(),
                },
                params: params_of(envelope),
            },
        )
    } else {
        match method {
            Some(method) => IncomingView::Notification { method, params: params_of(envelope) },
            None => IncomingView::Other,
        }
    }
}

/// What is reported of a frame.
pub open spec fn report(incoming: IncomingView) -> Option<EventView> {
    match incoming {
        IncomingView::Request(request) => Some(EventView::ServerRequest(request)),
        IncomingView::Notification { method, params } => Some(EventView::Notification { method, params }),
        _ => None,
    }
}

impl Incoming {
    /// What is reported of the frame.
    pub fn event(&self) -> (r: Option<CodexAppServerEvent>)
        ensures
            match r {
                Some(event) => report(self@) == Some(event@),
                None => report(self@) is None,
            },
    {
        match self {
            Incoming::Request(request) => Some(CodexAppServerEvent::ServerRequest(request.clone())),
            Incoming::Notification { method, params } => Some(
                CodexAppServerEvent::Notification { method: method.clone(), params: params.clone() },
            ),
            _ => None,
        }
    }
}

impl ConnectionView {
    /// The calls that wait have had numbers from one up to the next one.
    pub open spec fn wf(self) -> bool {
        &&& 1 <= self.next_id
        &&& forall|id: i64| #[trigger] self.waiting.contains(id) ==> 1 <= id < self.next_id
    }

    /// The calls that wait after one more has been made.
    pub open spec fn called(self) -> ConnectionView {
        ConnectionView { next_id: self.next_id + 1, waiting: self.waiting.insert(self.next_id as i64) }
    }

    /// The calls that still wait after a frame.
    pub open spec fn after(self, incoming: IncomingView) -> ConnectionView {
        match incoming {
            IncomingView::Reply { id, .. } => ConnectionView { waiting: self.waiting.remove(id), ..self },
            _ => self,
        }
    }
}

impl SnapshotView {
    /// What is known after a frame.
    pub open spec fn after(self, incoming: IncomingView) -> SnapshotView {
        match incoming {
            IncomingView::Request(request) => self.with_request(request),
            IncomingView::Notification { method, params } => self.notified(method, params),
            _ => self,
        }
    }
}

fn params(envelope: &Json) -> (r: Json)
    ensures
        r@ == params_of(envelope@),
{
    match envelope.get("params") {
        Some(params) => params.clone(),
        None => Json::object(),
    }
}

impl Connection {
    pub fn new() -> (r: Connection)
        ensures
            r@ == (ConnectionView { next_id: 1, waiting: Set::empty() }),
            r@.wf(),
    {
        let waiting: Vec<i64> = Vec::new();
        proof {
            assert(waiting@.to_set() =~= Set::empty());
        }
        Connection { next_id: 1, waiting }
    }

    /// Whether another call can be numbered.
    pub fn has_room(&self) -> (r: bool)
        ensures
            r == (self@.next_id < i64::MAX),
    {
        self.next_id < i64::MAX
    }

    /// Numbers a call, which then waits for its reply. The number is one that no call has had.
    pub fn begin_rpc(&mut self, method: &str, params: Json) -> (r: (i64, Json))
        requires
            old(self)@.next_id < i64::MAX,
        ensures
            r.0 == old(self)@.next_id,
            !old(self)@.waiting.contains(r.0),
            r.1@ == rpc_tree(r.0, method@, params@),
            final(self)@ == old(self)@.called(),
            old(self)@.wf(),
    {
        proof {
            use_type_invariant(&*self);
        }
        let id = self.next_id;
        let mut waiting: Vec<i64> = Vec::new();
        std::mem::swap(&mut waiting, &mut self.waiting);
        let ghost prior = waiting@;
        waiting.push(id);
        proof {
            assert(waiting@.to_set() =~= prior.to_set().insert(id)) by {
                assert forall|x: i64| #[trigger] waiting@.to_set().contains(x) == prior.to_set().insert(
                    id,
                ).contains(x) by {
                    if prior.contains(x) {
                        let i = choose|i: int| 0 <= i < prior.len() && prior[i] == x;
                        assert(waiting@[i] == x);
                    }
                    assert(waiting@[prior.len() as int] == id);
                }
            }
        }
        self.next_id = id + 1;
        self.waiting = waiting;
        (id, rpc_frame(id, method, params))
    }

    /// Takes a call off the list, and says whether it was there.
    fn settle(&mut self, id: i64) -> (r: bool)
        ensures
            r == old(self)@.waiting.contains(id),
            final(self)@ == (ConnectionView { waiting: old(self)@.waiting.remove(id), ..old(self)@ }),
    {
        proof {
            use_type_invariant(&*self);
        }
        let mut left: Vec<i64> = Vec::new();
        let mut found = false;
        let mut i: usize = 0;
        while i < self.waiting.len()
            invariant
                i <= self.waiting@.len(),
                *self == *old(self),
                self.ids_are_old(),
                found == self.waiting@.take(i as int).contains(id),
                forall|x: i64| #[trigger] left@.contains(x) <==> x != id && self.waiting@.take(i as int).contains(x),
                forall|j: int| 0 <= j < left@.len() ==> 1 <= #[trigger] left@[j] < self.next_id,
            decreases self.waiting@.len() - i,
        {
            let ghost seen = self.waiting@.take(i as int);
            let ghost prior = left@;
            let next = self.waiting[i];
            proof {
                assert(self.waiting@.take(i + 1) =~= seen.push(next));
                assert forall|x: i64| #[trigger] seen.push(next).contains(x) <==> seen.contains(x) || x == next by {
                    if seen.contains(x) {
                        let k = choose|k: int| 0 <= k < seen.len() && seen[k] == x;
                        assert(seen.push(next)[k] == x);
                    }
                    assert(seen.push(next)[seen.len() as int] == next);
                }
            }
            if next == id {
                found = true;
            } else {
                left.push(next);
                proof {
                    assert forall|x: i64| #[trigger] left@.contains(x) <==> prior.contains(x) || x == next by {
                        if prior.contains(x) {
                            let k = choose|k: int| 0 <= k < prior.len() && prior[k] == x;
                            assert(left@[k] == x);
                        }
                        assert(left@[prior.len() as int] == next);
                    }
                }
            }
            i = i + 1;
        }
        proof {
            assert(self.waiting@.take(i as int) =~= self.waiting@);
            assert(left@.to_set() =~= self.waiting@.to_set().remove(id));
        }
        self.waiting = left;
        found
    }

    /// Takes in a frame that has been read as a document.
    pub fn receive_envelope(&mut self, snapshot: &mut CodexAppServerSnapshot, envelope: &Json) -> (r: Incoming)
        ensures
            r@ == meaning(envelope@, old(self)@.waiting),
            final(self)@ == old(self)@.after(r@),
            final(snapshot)@ == old(snapshot)@.after(r@),
    {
        let id = envelope.get("id");
        let number: Option<i64> = match id {
            Some(id) => id.as_i64(),
            None => None,
        };
        if let Some(number) = number {
            if envelope.get("result").is_some() || envelope.get("error").is_some() {
                if self.settle(number) {
                    return Incoming::Reply { id: number, outcome: parse_rpc_response(envelope) };
                }
                proof {
                    assert(old(self)@.waiting.remove(number) =~= old(self)@.waiting);
                }
                return Incoming::Stray;
            }
        }
        if let Some(id) = id {
            if envelope.get("method").is_some() {
                let request = CodexPendingRequest {
                    request_id: id.clone(),
                    method: match envelope.str_at("method") {
                        Some(method) => method.to_owned(),
                        None => String::new(),
                    },
                    params: params(envelope),
                };
                let key = request_key(&request.request_id);
                snapshot.pending_requests.insert(key.as_str(), request.clone());
                return Incoming::Request(request);
            }
        }
        match envelope.str_at("method") {
            Some(method) => {
                let params = params(envelope);
                snapshot.apply_notification(method, &params);
                Incoming::Notification { method: method.to_owned(), params }
            },
            None => Incoming::Other,
        }
    }

    /// Takes in the text of a frame. A text that is no document ends the connection.
    pub fn receive(&mut self, snapshot: &mut CodexAppServerSnapshot, text: &str) -> (r: Result<
        Incoming,
        CodexAppServerError,
    >)
        ensures
            match parsed(text@) {
                Ok(envelope) => {
                    &&& r matches Ok(incoming)
                    &&& incoming@ == meaning(envelope, old(self)@.waiting)
                    &&& final(self)@ == old(self)@.after(incoming@)
                    &&& final(snapshot)@ == old(snapshot)@.after(incoming@)
                },
                Err(message) => {
                    &&& r matches Err(error)
                    &&& error@ == ErrorView::InvalidResponse(message)
                    &&& final(self)@ == old(self)@
                    &&& final(snapshot)@ == old(snapshot)@
                },
            },
    {
        match parse(text) {
            Ok(envelope) => Ok(self.receive_envelope(snapshot, &envelope)),
            Err(message) => Err(CodexAppServerError::InvalidResponse(message)),
        }
    }
}

/// Whatever comes, the calls that wait have had numbers that no later call gets: the number of the
/// next call is that of none which waits.
pub proof fn no_two_waiting_calls_share_a_number(connection: ConnectionView, incoming: IncomingView)
    requires
        connection.wf(),
    ensures
        connection.after(incoming).wf(),
        connection.next_id <= i64::MAX ==> !connection.waiting.contains(connection.next_id as i64),
        connection.next_id < i64::MAX ==> connection.called().wf(),
{
}

/// The reply to a call is given out once: where it comes again, nothing waits for it.
pub proof fn a_reply_is_given_out_once(connection: ConnectionView, envelope: Tree)
    ensures
        match meaning(envelope, connection.waiting) {
            IncomingView::Reply { id, outcome } => {
                let next = connection.after(meaning(envelope, connection.waiting));
                &&& connection.waiting.contains(id)
                &&& outcome == rpc_result(envelope)
                &&& meaning(envelope, next.waiting) is Stray
            },
            _ => true,
        },
{
}

/// A reply to one call leaves the others waiting.
pub proof fn other_calls_go_on_waiting(connection: ConnectionView, incoming: IncomingView, other: i64)
    requires
        connection.waiting.contains(other),
    ensures
        connection.after(incoming).waiting.contains(other) || (incoming matches IncomingView::Reply { id, .. } && id
            == other),
{
}

proof fn lemma_frame_names()
    ensures
        "id"@ != "method"@,
        "id"@ != "params"@,
        "id"@ != "result"@,
        "id"@ != "error"@,
        "method"@ != "params"@,
        "method"@ != "result"@,
        "method"@ != "error"@,
        "params"@ != "result"@,
        "params"@ != "error"@,
        "result"@ != "error"@,
{
    reveal_strlit("id");
    reveal_strlit("method");
    reveal_strlit("params");
    reveal_strlit("result");
    reveal_strlit("error");
    assert("id"@.len() != "method"@.len());
    assert("id"@.len() != "params"@.len());
    assert("id"@.len() != "result"@.len());
    assert("id"@.len() != "error"@.len());
    assert("method"@[0] != "params"@[0]);
    assert("method"@[0] != "result"@[0]);
    assert("method"@.len() != "error"@.len());
    assert("params"@[0] != "result"@[0]);
    assert("params"@.len() != "error"@.len());
    assert("result"@.len() != "error"@.len());
}

/// A frame with an id and a method, and neither a result nor an error, is a request. What is reported
/// of it, and what is then kept under its key, is this id, this method and these very parameters, so
/// that it is about the thread that they name. No call gets its reply by it.
pub proof fn a_request_is_kept_with_its_parameters(
    snapshot: SnapshotView,
    connection: ConnectionView,
    envelope: Tree,
    id: Tree,
    method: Seq<char>,
    thread_id: Seq<char>,
)
    requires
        envelope.get("id"@) == Some(id),
        envelope.get("method"@) == Some(Tree::Str(method)),
        envelope.get("result"@) is None,
        envelope.get("error"@) is None,
    ensures
        ({
            let incoming = meaning(envelope, connection.waiting);
            let after = snapshot.after(incoming);
            let key = crate::wire::key_of(id);
            &&& after.pending_requests.contains_key(key)
            &&& report(incoming) == Some(EventView::ServerRequest(after.pending_requests[key]))
            &&& after.pending_requests[key].request_id == id
            &&& after.pending_requests[key].method == method
            &&& envelope.get("params"@) matches Some(params) ==> after.pending_requests[key].params == params
            &&& envelope.get("params"@) is None ==> after.pending_requests[key].params == Tree::Object(Map::empty())
            &&& envelope.get_in("params"@, "threadId"@) == Some(Tree::Str(thread_id))
                ==> after.pending_requests[key].params.get("threadId"@) == Some(Tree::Str(thread_id))
            &&& forall|other: Seq<char>|
                other != key ==> (#[trigger] after.pending_requests.contains_key(other)
                    <==> snapshot.pending_requests.contains_key(other)) && (snapshot.pending_requests.contains_key(other)
                    ==> after.pending_requests[other] == snapshot.pending_requests[other])
            &&& after.threads == snapshot.threads && after.runtimes == snapshot.runtimes
            &&& connection.after(incoming) == connection
        }),
{
}

/// A frame with a method and no id is a notification: it is reported with this method and these very
/// parameters, and it is what the snapshot then takes in. No call gets its reply by it.
pub proof fn a_notification_is_reported_as_it_comes(
    snapshot: SnapshotView,
    connection: ConnectionView,
    envelope: Tree,
    method: Seq<char>,
)
    requires
        envelope.get("id"@) is None,
        envelope.get("method"@) == Some(Tree::Str(method)),
    ensures
        ({
            let incoming = meaning(envelope, connection.waiting);
            let params = match envelope.get("params"@) {
                Some(params) => params,
                None => Tree::Object(Map::empty()),
            };
            &&& report(incoming) == Some(EventView::Notification { method, params })
            &&& snapshot.after(incoming) == snapshot.notified(method, params)
            &&& connection.after(incoming) == connection
        }),
{
}

/// A frame with the number of a call that waits, and a result or an error, is its reply: the call gets
/// the result where there is no error, and else the code, the message and the data of the error. The
/// call waits no longer, nothing is reported, and the snapshot stays as it is. Where no call with that
/// number waits, nothing happens at all.
pub proof fn a_reply_reaches_its_call(snapshot: SnapshotView, connection: ConnectionView, envelope: Tree, id: i64)
    requires
        envelope.get("id"@) == Some(Tree::Int(id)),
        envelope.get("result"@) is Some || envelope.get("error"@) is Some,
    ensures
        ({
            let incoming = meaning(envelope, connection.waiting);
            &&& report(incoming) is None
            &&& snapshot.after(incoming) == snapshot
            &&& !connection.after(incoming).waiting.contains(id)
            &&& connection.after(incoming).next_id == connection.next_id
            &&& forall|other: i64|
                other != id ==> (#[trigger] connection.after(incoming).waiting.contains(other)
                    <==> connection.waiting.contains(other))
            &&& !connection.waiting.contains(id) ==> incoming == IncomingView::Stray
            &&& connection.waiting.contains(id) && envelope.get("error"@) is None ==> incoming == (IncomingView::Reply {
                id,
                outcome: Ok(envelope.get("result"@)->0),
            })
            &&& connection.waiting.contains(id) ==> (envelope.get("error"@) matches Some(error) ==> {
                &&& incoming matches IncomingView::Reply { id: to, outcome: Err(ErrorView::Rpc { code, message, data }) }
                &&& to == id
                &&& error.get("code"@) matches Some(Tree::Int(said)) ==> code == said
                &&& !(error.get("code"@) matches Some(Tree::Int(_))) ==> code == -32_000
                &&& error.get("message"@) matches Some(Tree::Str(said)) ==> message == said
                &&& !(error.get("message"@) matches Some(Tree::Str(_))) ==> message == "unknown Codex app-server error"@
                &&& data == error.get("data"@)
            })
        }),
{
}

/// A frame without a method that is no reply changes nothing and is not reported.
pub proof fn other_frames_make_no_difference(snapshot: SnapshotView, connection: ConnectionView, envelope: Tree)
    requires
        envelope.get("method"@) is None,
        envelope.get("result"@) is None && envelope.get("error"@) is None || !(envelope.get("id"@) matches Some(
            Tree::Int(_),
        )),
    ensures
        ({
            let incoming = meaning(envelope, connection.waiting);
            &&& incoming == IncomingView::Other
            &&& report(incoming) is None
            &&& snapshot.after(incoming) == snapshot
            &&& connection.after(incoming) == connection
        }),
{
}

/// The frame of a call has the number, the method and the parameters of the call, and no other member;
/// so what is read of it is what was asked for.
pub proof fn the_frame_of_a_call_says_what_is_called(id: i64, method: Seq<char>, params: Tree)
    ensures
        rpc_tree(id, method, params).get("id"@) == Some(Tree::Int(id)),
        rpc_tree(id, method, params).get("method"@) == Some(Tree::Str(method)),
        rpc_tree(id, method, params).get("params"@) == Some(params),
        rpc_tree(id, method, params).get("result"@) is None,
        rpc_tree(id, method, params).get("error"@) is None,
{
    lemma_frame_names();
}

proof fn lemma_opening_names()
    ensures
        "clientInfo"@ != "capabilities"@,
        "clientInfo"@ != "name"@,
        "clientInfo"@ != "title"@,
        "clientInfo"@ != "version"@,
        "clientInfo"@ != "experimentalApi"@,
        "clientInfo"@ != "mcpServerOpenaiFormElicitation"@,
        "capabilities"@ != "name"@,
        "capabilities"@ != "title"@,
        "capabilities"@ != "version"@,
        "capabilities"@ != "experimentalApi"@,
        "capabilities"@ != "mcpServerOpenaiFormElicitation"@,
        "name"@ != "title"@,
        "name"@ != "version"@,
        "name"@ != "experimentalApi"@,
        "name"@ != "mcpServerOpenaiFormElicitation"@,
        "title"@ != "version"@,
        "title"@ != "experimentalApi"@,
        "title"@ != "mcpServerOpenaiFormElicitation"@,
        "version"@ != "experimentalApi"@,
        "version"@ != "mcpServerOpenaiFormElicitation"@,
        "experimentalApi"@ != "mcpServerOpenaiFormElicitation"@,
{
    reveal_strlit("clientInfo");
    reveal_strlit("capabilities");
    reveal_strlit("name");
    reveal_strlit("title");
    reveal_strlit("version");
    reveal_strlit("experimentalApi");
    reveal_strlit("mcpServerOpenaiFormElicitation");
    assert("clientInfo"@.len() != "capabilities"@.len());
    assert("clientInfo"@.len() != "name"@.len());
    assert("clientInfo"@.len() != "title"@.len());
    assert("clientInfo"@.len() != "version"@.len());
    assert("clientInfo"@.len() != "experimentalApi"@.len());
    assert("clientInfo"@.len() != "mcpServerOpenaiFormElicitation"@.len());
    assert("capabilities"@.len() != "name"@.len());
    assert("capabilities"@.len() != "title"@.len());
    assert("capabilities"@.len() != "version"@.len());
    assert("capabilities"@.len() != "experimentalApi"@.len());
    assert("capabilities"@.len() != "mcpServerOpenaiFormElicitation"@.len());
    assert("name"@.len() != "title"@.len());
    assert("name"@.len() != "version"@.len());
    assert("name"@.len() != "experimentalApi"@.len());
    assert("name"@.len() != "mcpServerOpenaiFormElicitation"@.len());
    assert("title"@.len() != "version"@.len());
    assert("title"@.len() != "experimentalApi"@.len());
    assert("title"@.len() != "mcpServerOpenaiFormElicitation"@.len());
    assert("version"@.len() != "experimentalApi"@.len());
    assert("version"@.len() != "mcpServerOpenaiFormElicitation"@.len());
    assert("experimentalApi"@.len() != "mcpServerOpenaiFormElicitation"@.len());
}

/// The opening frame is the call numbered zero of `initialize`, by the client of this version, which
/// takes what is experimental and no forms.
pub proof fn the_opening_frame_says_who_opens(version: Seq<char>)
    ensures
        ({
            let frame = initialize_tree(version);
            let client = frame.get_in("params"@, "clientInfo"@)->0;
            let capabilities = frame.get_in("params"@, "capabilities"@)->0;
            &&& frame.get("id"@) == Some(Tree::Int(0))
            &&& frame.get("method"@) == Some(Tree::Str("initialize"@))
            &&& client.get("name"@) == Some(Tree::Str("aionui"@))
            &&& client.get("title"@) == Some(Tree::Str("AionUI"@))
            &&& client.get("version"@) == Some(Tree::Str(version))
            &&& capabilities.get("experimentalApi"@) == Some(Tree::Bool(true))
            &&& capabilities.get("mcpServerOpenaiFormElicitation"@) == Some(Tree::Bool(false))
        }),
{
    lemma_frame_names();
    lemma_opening_names();
}

proof fn lemma_turn_names()
    ensures
        "threadId"@ != "clientUserMessageId"@,
        "threadId"@ != "input"@,
        "threadId"@ != "type"@,
        "threadId"@ != "text"@,
        "threadId"@ != "expectedTurnId"@,
        "clientUserMessageId"@ != "input"@,
        "clientUserMessageId"@ != "type"@,
        "clientUserMessageId"@ != "text"@,
        "clientUserMessageId"@ != "expectedTurnId"@,
        "input"@ != "type"@,
        "input"@ != "text"@,
        "input"@ != "expectedTurnId"@,
        "type"@ != "text"@,
        "type"@ != "expectedTurnId"@,
        "text"@ != "expectedTurnId"@,
{
    reveal_strlit("threadId");
    reveal_strlit("clientUserMessageId");
    reveal_strlit("input");
    reveal_strlit("type");
    reveal_strlit("text");
    reveal_strlit("expectedTurnId");
    assert("threadId"@.len() != "clientUserMessageId"@.len());
    assert("threadId"@.len() != "input"@.len());
    assert("threadId"@.len() != "type"@.len());
    assert("threadId"@.len() != "text"@.len());
    assert("threadId"@.len() != "expectedTurnId"@.len());
    assert("clientUserMessageId"@.len() != "input"@.len());
    assert("clientUserMessageId"@.len() != "type"@.len());
    assert("clientUserMessageId"@.len() != "text"@.len());
    assert("clientUserMessageId"@.len() != "expectedTurnId"@.len());
    assert("input"@.len() != "type"@.len());
    assert("input"@.len() != "text"@.len());
    assert("input"@.len() != "expectedTurnId"@.len());
    assert("type"@[1] != "text"@[1]);
    assert("type"@.len() != "expectedTurnId"@.len());
    assert("text"@.len() != "expectedTurnId"@.len());
}

/// The parameters of a turn name the thread and the message, and carry the text as the one input.
pub proof fn the_input_of_a_turn_is_the_text(thread_id: Seq<char>, client_message_id: Seq<char>, text: Seq<char>)
    ensures
        ({
            let params = turn_start_tree(thread_id, client_message_id, text);
            &&& params.get("threadId"@) == Some(Tree::Str(thread_id))
            &&& params.get("clientUserMessageId"@) == Some(Tree::Str(client_message_id))
            &&& params.get("expectedTurnId"@) is None
            &&& params.get("input"@) matches Some(Tree::Array(inputs))
            &&& inputs.len() == 1
            &&& inputs[0].get("type"@) == Some(Tree::Str("text"@))
            &&& inputs[0].get("text"@) == Some(Tree::Str(text))
        }),
{
    lemma_turn_names();
}

proof fn lemma_list_names()
    ensures
        "cursor"@ != "limit"@,
        "cursor"@ != "sortKey"@,
        "cursor"@ != "sortDirection"@,
        "cursor"@ != "sourceKinds"@,
        "cursor"@ != "archived"@,
        "limit"@ != "sortKey"@,
        "limit"@ != "sortDirection"@,
        "limit"@ != "sourceKinds"@,
        "limit"@ != "archived"@,
        "sortKey"@ != "sortDirection"@,
        "sortKey"@ != "sourceKinds"@,
        "sortKey"@ != "archived"@,
        "sortDirection"@ != "sourceKinds"@,
        "sortDirection"@ != "archived"@,
        "sourceKinds"@ != "archived"@,
{
    reveal_strlit("cursor");
    reveal_strlit("limit");
    reveal_strlit("sortKey");
    reveal_strlit("sortDirection");
    reveal_strlit("sourceKinds");
    reveal_strlit("archived");
    assert("cursor"@.len() != "limit"@.len());
    assert("cursor"@.len() != "sortKey"@.len());
    assert("cursor"@.len() != "sortDirection"@.len());
    assert("cursor"@.len() != "sourceKinds"@.len());
    assert("cursor"@.len() != "archived"@.len());
    assert("limit"@.len() != "sortKey"@.len());
    assert("limit"@.len() != "sortDirection"@.len());
    assert("limit"@.len() != "sourceKinds"@.len());
    assert("limit"@.len() != "archived"@.len());
    assert("sortKey"@.len() != "sortDirection"@.len());
    assert("sortKey"@.len() != "sourceKinds"@.len());
    assert("sortKey"@.len() != "archived"@.len());
    assert("sortDirection"@.len() != "sourceKinds"@.len());
    assert("sortDirection"@.len() != "archived"@.len());
    assert("sourceKinds"@.len() != "archived"@.len());
}

/// A listing of threads is asked for from the cursor that is given, with this limit and with or
/// without what is archived, the thread updated last first, and from sources of every kind.
pub proof fn a_listing_asks_for_the_latest_threads_of_every_kind(cursor: Option<Seq<char>>, limit: u32, archived: bool)
    ensures
        ({
            let params = thread_list_tree(cursor, limit, archived);
            &&& cursor is None ==> params.get("cursor"@) == Some(Tree::Null)
            &&& cursor matches Some(cursor) ==> params.get("cursor"@) == Some(Tree::Str(cursor))
            &&& params.get("limit"@) == Some(Tree::Int(limit as i64))
            &&& params.get("sortKey"@) == Some(Tree::Str("updated_at"@))
            &&& params.get("sortDirection"@) == Some(Tree::Str("desc"@))
            &&& params.get("archived"@) == Some(Tree::Bool(archived))
            &&& params.get("sourceKinds"@) matches Some(Tree::Array(kinds))
            &&& kinds.len() == 10
            &&& kinds.contains(Tree::Str("cli"@))
            &&& kinds.contains(Tree::Str("vscode"@))
            &&& kinds.contains(Tree::Str("exec"@))
            &&& kinds.contains(Tree::Str("appServer"@))
            &&& kinds.contains(Tree::Str("subAgent"@))
            &&& kinds.contains(Tree::Str("subAgentReview"@))
            &&& kinds.contains(Tree::Str("subAgentCompact"@))
            &&& kinds.contains(Tree::Str("subAgentThreadSpawn"@))
            &&& kinds.contains(Tree::Str("subAgentOther"@))
            &&& kinds.contains(Tree::Str("unknown"@))
        }),
{
    lemma_list_names();
    let params = thread_list_tree(cursor, limit, archived);
    let kinds = params.get("sourceKinds"@)->0->Array_0;
    assert(kinds[0] == Tree::Str("cli"@) && kinds[1] == Tree::Str("vscode"@) && kinds[2] == Tree::Str("exec"@));
    assert(kinds[3] == Tree::Str("appServer"@) && kinds[4] == Tree::Str("subAgent"@));
    assert(kinds[5] == Tree::Str("subAgentReview"@) && kinds[6] == Tree::Str("subAgentCompact"@));
    assert(kinds[7] == Tree::Str("subAgentThreadSpawn"@) && kinds[8] == Tree::Str("subAgentOther"@));
    assert(kinds[9] == Tree::Str("unknown"@));
}

/// A call that is made waits under a number of its own, the next one is numbered one higher, and the
/// calls that waited before wait yet.
pub proof fn a_call_waits_under_its_own_number(connection: ConnectionView, other: i64)
    requires
        connection.wf(),
        connection.next_id < i64::MAX,
    ensures
        !connection.waiting.contains(connection.next_id as i64),
        connection.called().waiting.contains(connection.next_id as i64),
        connection.called().next_id == connection.next_id + 1,
        other != connection.next_id ==> (connection.called().waiting.contains(other) <==> connection.waiting.contains(
            other,
        )),
{
}

/// A reply is the result that it holds, unless it holds an error: it is then that error, with its code,
/// its message and its data, where it says them. A reply with neither is none.
pub proof fn a_reply_is_its_result_or_its_error(envelope: Tree, error: Tree, result: Tree, code: i64, message: Seq<char>)
    ensures
        envelope.get("error"@) is None && envelope.get("result"@) == Some(result) ==> rpc_result(envelope) == Ok::<
            Tree,
            ErrorView,
        >(result),
        envelope.get("error"@) is None && envelope.get("result"@) is None ==> rpc_result(envelope) == Err::<Tree, ErrorView>(
            ErrorView::InvalidResponse("RPC response omitted result"@),
        ),
        envelope.get("error"@) == Some(error) ==> {
            &&& rpc_result(envelope) matches Err(ErrorView::Rpc { code: said, message: told, data })
            &&& error.get("code"@) == Some(Tree::Int(code)) ==> said == code
            &&& !(error.get("code"@) matches Some(Tree::Int(_))) ==> said == -32000
            &&& error.get("message"@) == Some(Tree::Str(message)) ==> told == message
            &&& !(error.get("message"@) matches Some(Tree::Str(_))) ==> told == "unknown Codex app-server error"@
            &&& data == error.get("data"@)
        },
{
}

} // verus!
