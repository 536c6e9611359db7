//! What the Codex app-server and its clients say to each other.
use vstd::prelude::*;

use crate::json::{Json, Tree};
use crate::table::Table;
use crate::text::{
    a_text_is_held_by_what_surrounds_it, clone_opt, concat, contains, decimal, equals, holds, opt_string, write_decimal,
};

verus! {

/// What is known of a thread's activity.
#[derive(Debug, PartialEq, Eq)]
pub struct CodexThreadRuntime {
    pub active_turn_id: Option<String>,
    pub status: String,
}

pub struct RuntimeView {
    pub active_turn_id: Option<Seq<char>>,
    pub status: Seq<char>,
}

impl View for CodexThreadRuntime {
    type V = RuntimeView;

    open spec fn view(&self) -> RuntimeView {
        RuntimeView { active_turn_id: opt_string(self.active_turn_id), status: self.status@ }
    }
}

impl Clone for CodexThreadRuntime {
    fn clone(&self) -> (r: CodexThreadRuntime)
        ensures
            r@ == self@,
    {
        CodexThreadRuntime {
            active_turn_id: clone_opt(&self.active_turn_id),
            status: self.status.clone(),
        }
    }
}

/// A request of the app-server that waits for an answer.
#[derive(Debug, PartialEq)]
pub struct CodexPendingRequest {
    pub request_id: Json,
    pub method: String,
    pub params: Json,
}

pub struct RequestView {
    pub request_id: Tree,
    pub method: Seq<char>,
    pub params: Tree,
}

impl View for CodexPendingRequest {
    type V = RequestView;

    open spec fn view(&self) -> RequestView {
        RequestView {
            request_id: self.request_id@,
            method: self.method@,
            params: self.params@,
        }
    }
}

impl Clone for CodexPendingRequest {
    fn clone(&self) -> (r: CodexPendingRequest)
        ensures
            r@ == self@,
    {
        CodexPendingRequest {
            request_id: self.request_id.clone(),
            method: self.method.clone(),
            params: self.params.clone(),
        }
    }
}

/// What the connection to the app-server reports.
#[derive(Debug, PartialEq)]
pub enum CodexAppServerEvent {
    Connected { codex_home: String, user_agent: String },
    Disconnected { reason: String },
    Notification { method: String, params: Json },
    ServerRequest(CodexPendingRequest),
}

pub enum EventView {
    Connected { codex_home: Seq<char>, user_agent: Seq<char> },
    Disconnected { reason: Seq<char> },
    Notification { method: Seq<char>, params: Tree },
    ServerRequest(RequestView),
}

impl View for CodexAppServerEvent {
    type V = EventView;

    open spec fn view(&self) -> EventView {
        match self {
            CodexAppServerEvent::Connected { codex_home, user_agent } => EventView::Connected {
                codex_home: codex_home@,
                user_agent: user_agent@,
            },
            CodexAppServerEvent::Disconnected { reason } => EventView::Disconnected { reason: reason@ },
            CodexAppServerEvent::Notification { method, params } => EventView::Notification {
                method: method@,
                params: params@,
            },
            CodexAppServerEvent::ServerRequest(request) => EventView::ServerRequest(request@),
        }
    }
}

impl Clone for CodexAppServerEvent {
    fn clone(&self) -> (r: CodexAppServerEvent)
        ensures
            r@ == self@,
    {
        match self {
            CodexAppServerEvent::Connected { codex_home, user_agent } => CodexAppServerEvent::Connected {
                codex_home: codex_home.clone(),
                user_agent: user_agent.clone(),
            },
            CodexAppServerEvent::Disconnected { reason } => CodexAppServerEvent::Disconnected {
                reason: reason.clone(),
            },
            CodexAppServerEvent::Notification { method, params } => CodexAppServerEvent::Notification {
                method: method.clone(),
                params: params.clone(),
            },
            CodexAppServerEvent::ServerRequest(request) => CodexAppServerEvent::ServerRequest(request.clone()),
        }
    }
}

/// What is known of the app-server.
pub struct CodexAppServerSnapshot {
    pub connected: bool,
    pub codex_home: Option<String>,
    pub user_agent: Option<String>,
    pub threads: Table<Json>,
    pub runtimes: Table<CodexThreadRuntime>,
    pub pending_requests: Table<CodexPendingRequest>,
}

pub struct SnapshotView {
    pub connected: bool,
    pub codex_home: Option<Seq<char>>,
    pub user_agent: Option<Seq<char>>,
    pub threads: Map<Seq<char>, Tree>,
    pub runtimes: Map<Seq<char>, RuntimeView>,
    pub pending_requests: Map<Seq<char>, RequestView>,
}

impl View for CodexAppServerSnapshot {
    type V = SnapshotView;

    open spec fn view(&self) -> SnapshotView {
        SnapshotView {
            connected: self.connected,
            codex_home: opt_string(self.codex_home),
            user_agent: opt_string(self.user_agent),
            threads: self.threads@,
            runtimes: self.runtimes@,
            pending_requests: self.pending_requests@,
        }
    }
}

/// Nothing is known.
pub open spec fn blank_snapshot() -> SnapshotView {
    SnapshotView {
        connected: false,
        codex_home: None,
        user_agent: None,
        threads: Map::empty(),
        runtimes: Map::empty(),
        pending_requests: Map::empty(),
    }
}

impl Default for CodexAppServerSnapshot {
    fn default() -> (r: CodexAppServerSnapshot)
        ensures
            r@ == blank_snapshot(),
    {
        CodexAppServerSnapshot {
            connected: false,
            codex_home: None,
            user_agent: None,
            threads: Table::new(),
            runtimes: Table::new(),
            pending_requests: Table::new(),
        }
    }
}

/// Which turn an input went to, and whether that turn was running before.
#[derive(Debug, PartialEq, Eq)]
pub struct CodexSendReceipt {
    pub turn_id: String,
    pub steered: bool,
}

pub struct ReceiptView {
    pub turn_id: Seq<char>,
    pub steered: bool,
}

impl View for CodexSendReceipt {
    type V = ReceiptView;

    open spec fn view(&self) -> ReceiptView {
        ReceiptView { turn_id: self.turn_id@, steered: self.steered }
    }
}

impl Clone for CodexSendReceipt {
    fn clone(&self) -> (r: CodexSendReceipt)
        ensures
            r@ == self@,
    {
        CodexSendReceipt { turn_id: self.turn_id.clone(), steered: self.steered }
    }
}

/// Why a call of the app-server failed.
#[derive(Debug, PartialEq)]
pub enum CodexAppServerError {
    Unavailable(String),
    Timeout,
    Rpc { code: i64, message: String, data: Option<Json> },
    InvalidResponse(String),
    ActiveTurnNotSteerable,
}

pub enum ErrorView {
    Unavailable(Seq<char>),
    Timeout,
    Rpc { code: i64, message: Seq<char>, data: Option<Tree> },
    InvalidResponse(Seq<char>),
    ActiveTurnNotSteerable,
}

pub open spec fn opt_json(json: Option<Json>) -> Option<Tree> {
    match json {
        Some(json) => Some(json@),
        None => None,
    }
}

impl View for CodexAppServerError {
    type V = ErrorView;

    open spec fn view(&self) -> ErrorView {
        match self {
            CodexAppServerError::Unavailable(reason) => ErrorView::Unavailable(reason@),
            CodexAppServerError::Timeout => ErrorView::Timeout,
            CodexAppServerError::Rpc { code, message, data } => ErrorView::Rpc {
                code: *code,
                message: message@,
                data: opt_json(*data),
            },
            CodexAppServerError::InvalidResponse(reason) => ErrorView::InvalidResponse(reason@),
            CodexAppServerError::ActiveTurnNotSteerable => ErrorView::ActiveTurnNotSteerable,
        }
    }
}

impl Clone for CodexAppServerError {
    fn clone(&self) -> (r: CodexAppServerError)
        ensures
            r@ == self@,
    {
        match self {
            CodexAppServerError::Unavailable(reason) => CodexAppServerError::Unavailable(reason.clone()),
            CodexAppServerError::Timeout => CodexAppServerError::Timeout,
            CodexAppServerError::Rpc { code, message, data } => CodexAppServerError::Rpc {
                code: *code,
                message: message.clone(),
                data: match data {
                    Some(data) => Some(data.clone()),
                    None => None,
                },
            },
            CodexAppServerError::InvalidResponse(reason) => CodexAppServerError::InvalidResponse(reason.clone()),
            CodexAppServerError::ActiveTurnNotSteerable => CodexAppServerError::ActiveTurnNotSteerable,
        }
    }
}

impl ErrorView {
    /// The turn that an input was meant for was no longer the active one.
    pub open spec fn is_turn_race(self) -> bool {
        match self {
            ErrorView::Rpc { message, .. } => holds(message, "no active turn"@) || holds(
                message,
                "expected active turn id"@,
            ),
            _ => false,
        }
    }

    /// The active turn takes no input.
    pub open spec fn is_active_turn_not_steerable(self) -> bool {
        match self {
            ErrorView::ActiveTurnNotSteerable => true,
            ErrorView::Rpc { message, data, .. } => {
                ||| holds(message, "cannot steer a review turn"@)
                ||| holds(message, "cannot steer a compact turn"@)
                ||| match data {
                    Some(data) => crate::json::str_in(data.get_in("codexErrorInfo"@, "type"@)) == Some(
                        "activeTurnNotSteerable"@,
                    ),
                    None => false,
                }
            },
            _ => false,
        }
    }

    /// What the error reads as.
    pub open spec fn message(self) -> Seq<char> {
        match self {
            ErrorView::Unavailable(reason) => "Codex app-server is unavailable: "@ + reason,
            ErrorView::Timeout => "Codex app-server request timed out"@,
            ErrorView::Rpc { code, message, .. } => "Codex app-server RPC "@ + decimal(code as int)
                + ": "@ + message,
            ErrorView::InvalidResponse(reason) => "Invalid Codex app-server response: "@ + reason,
            ErrorView::ActiveTurnNotSteerable => "Codex turn cannot currently accept direct input"@,
        }
    }
}

impl CodexAppServerError {
    /// Whether the turn that an input was meant for was no longer the active one, so that the
    /// input can start a turn of its own.
    pub fn is_turn_race(&self) -> (r: bool)
        ensures
            r == self@.is_turn_race(),
    {
        match self {
            CodexAppServerError::Rpc { message, .. } => contains(message.as_str(), "no active turn")
                || contains(message.as_str(), "expected active turn id"),
            _ => false,
        }
    }

    /// Whether the active turn takes no input.
    pub fn is_active_turn_not_steerable(&self) -> (r: bool)
        ensures
            r == self@.is_active_turn_not_steerable(),
    {
        match self {
            CodexAppServerError::ActiveTurnNotSteerable => true,
            CodexAppServerError::Rpc { message, data, .. } => {
                if contains(message.as_str(), "cannot steer a review turn") || contains(
                    message.as_str(),
                    "cannot steer a compact turn",
                ) {
                    return true;
                }
                match data {
                    Some(data) => match data.get_in("codexErrorInfo", "type") {
                        Some(kind) => equals(kind.as_str(), "activeTurnNotSteerable"),
                        None => false,
                    },
                    None => false,
                }
            },
            _ => false,
        }
    }

    /// What the error reads as.
    pub fn message(&self) -> (r: String)
        ensures
            r@ == self@.message(),
    {
        match self {
            CodexAppServerError::Unavailable(reason) => concat(
                "Codex app-server is unavailable: ",
                reason.as_str(),
            ),
            CodexAppServerError::Timeout => "Codex app-server request timed out".to_owned(),
            CodexAppServerError::Rpc { code, message, .. } => {
                let mut r = "Codex app-server RPC ".to_owned();
                r.append(write_decimal(*code).as_str());
                r.append(": ");
                r.append(message.as_str());
                r
            },
            CodexAppServerError::InvalidResponse(reason) => concat(
                "Invalid Codex app-server response: ",
                reason.as_str(),
            ),
            CodexAppServerError::ActiveTurnNotSteerable =>
                "Codex turn cannot currently accept direct input".to_owned(),
        }
    }
}

/// An input came too late exactly where the app-server says that no turn is active, or that another one
/// is; what else the message says makes no difference.
pub proof fn a_late_input_is_told_by_the_message(left: Seq<char>, right: Seq<char>, code: i64, data: Option<Tree>)
    ensures
        (ErrorView::Rpc { code, message: left + "no active turn"@ + right, data }).is_turn_race(),
        (ErrorView::Rpc { code, message: left + "expected active turn id"@ + right, data }).is_turn_race(),
        forall|message: Seq<char>| #[trigger]
            (ErrorView::Rpc { code, message, data }).is_turn_race() ==> holds(message, "no active turn"@) || holds(
                message,
                "expected active turn id"@,
            ),
        !ErrorView::Timeout.is_turn_race(),
        !ErrorView::ActiveTurnNotSteerable.is_turn_race(),
        !ErrorView::Unavailable(left).is_turn_race(),
        !ErrorView::InvalidResponse(left).is_turn_race(),
{
    a_text_is_held_by_what_surrounds_it(left, "no active turn"@, left, right);
    a_text_is_held_by_what_surrounds_it(left, "expected active turn id"@, left, right);
}

/// A turn takes no input exactly where the app-server says so: by a message on a turn that reviews or
/// compacts, or by the type of the error.
pub proof fn a_turn_that_takes_no_input_is_told(left: Seq<char>, right: Seq<char>, code: i64, data: Option<Tree>)
    ensures
        (ErrorView::Rpc { code, message: left + "cannot steer a review turn"@ + right, data }).is_active_turn_not_steerable(),
        (ErrorView::Rpc { code, message: left + "cannot steer a compact turn"@ + right, data }).is_active_turn_not_steerable(),
        data matches Some(said) ==> said.get("codexErrorInfo"@) matches Some(info) ==> info.get("type"@) == Some(
            Tree::Str("activeTurnNotSteerable"@),
        ) ==> (ErrorView::Rpc { code, message: left, data }).is_active_turn_not_steerable(),
        (ErrorView::Rpc { code, message: left, data }).is_active_turn_not_steerable() ==> {
            ||| holds(left, "cannot steer a review turn"@)
            ||| holds(left, "cannot steer a compact turn"@)
            ||| data matches Some(said) && said.get("codexErrorInfo"@) matches Some(info) && info.get("type"@) == Some(
                Tree::Str("activeTurnNotSteerable"@),
            )
        },
        ErrorView::ActiveTurnNotSteerable.is_active_turn_not_steerable(),
        !ErrorView::Timeout.is_active_turn_not_steerable(),
        !ErrorView::Unavailable(left).is_active_turn_not_steerable(),
        !ErrorView::InvalidResponse(left).is_active_turn_not_steerable(),
{
    a_text_is_held_by_what_surrounds_it(left, "cannot steer a review turn"@, left, right);
    a_text_is_held_by_what_surrounds_it(left, "cannot steer a compact turn"@, left, right);
}

/// An error reads as what it is, with the reason, or with the code and the message, that it came with.
pub proof fn an_error_reads_as_what_it_is(reason: Seq<char>, code: i64, data: Option<Tree>)
    ensures
        ErrorView::Unavailable(reason).message() == "Codex app-server is unavailable: "@ + reason,
        ErrorView::Timeout.message() == "Codex app-server request timed out"@,
        (ErrorView::Rpc { code, message: reason, data }).message() == "Codex app-server RPC "@ + decimal(code as int)
            + ": "@ + reason,
        ErrorView::InvalidResponse(reason).message() == "Invalid Codex app-server response: "@ + reason,
        ErrorView::ActiveTurnNotSteerable.message() == "Codex turn cannot currently accept direct input"@,
{
}

} // verus!
