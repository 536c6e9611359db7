//! What a user does in a conversation that shows a thread.
use vstd::prelude::*;

use crate::confirmation::{
    approval_result, confirmation, decision, find_request, first_asked, pending_request_to_confirmation,
};
use crate::json::{bool_in, object, Json, Tree};
use crate::protocol::{
    CodexAppServerError, CodexAppServerSnapshot, CodexSendReceipt, ErrorView, ReceiptView, RequestView,
};
use crate::rows::{
    opt_binding, BindingView, CodexThreadBindingRow, ConversationError, ConversationRowUpdate, FailureView, UpdateView,
};
use crate::table::{is_listing, lookup, Table};
use crate::text::{clone_opt, concat, opt_string, same, to_owned};
use crate::wire::{displayed, is_shallow, parse, parsed, print};

verus! {

/// Where an input went.
#[derive(Debug, PartialEq, Eq)]
pub struct CodexNativeSendOutcome {
    pub msg_id: String,
    pub turn_id: String,
    pub steered: bool,
    pub pending_delivery: bool,
}

pub struct OutcomeView {
    pub msg_id: Seq<char>,
    pub turn_id: Seq<char>,
    pub steered: bool,
    pub pending_delivery: bool,
}

impl View for CodexNativeSendOutcome {
    type V = OutcomeView;

    open spec fn view(&self) -> OutcomeView {
        OutcomeView {
            msg_id: self.msg_id@,
            turn_id: self.turn_id@,
            steered: self.steered,
            pending_delivery: self.pending_delivery,
        }
    }
}

impl Clone for CodexNativeSendOutcome {
    fn clone(&self) -> (r: CodexNativeSendOutcome)
        ensures
            r@ == self@,
    {
        CodexNativeSendOutcome {
            msg_id: self.msg_id.clone(),
            turn_id: self.turn_id.clone(),
            steered: self.steered,
            pending_delivery: self.pending_delivery,
        }
    }
}

/// What a failed call of the app-server means for a conversation.
pub open spec fn failure(error: ErrorView) -> FailureView {
    match error {
        ErrorView::ActiveTurnNotSteerable => FailureView::Busy("Codex is running a non-steerable internal turn"@),
        ErrorView::Unavailable(reason) => FailureView::Busy(reason),
        ErrorView::Timeout => FailureView::Busy("Codex app-server request timed out"@),
        other => FailureView::Internal(other.message()),
    }
}

/// What a failed call of the app-server means for a conversation.
pub fn codex_error(error: CodexAppServerError) -> (r: ConversationError)
    ensures
        r@ == failure(error@),
{
    match error {
        CodexAppServerError::ActiveTurnNotSteerable => ConversationError::Busy {
            reason: "Codex is running a non-steerable internal turn".to_owned(),
        },
        CodexAppServerError::Unavailable(reason) => ConversationError::Busy { reason },
        CodexAppServerError::Timeout => ConversationError::Busy {
            reason: "Codex app-server request timed out".to_owned(),
        },
        other => ConversationError::Internal { reason: other.message() },
    }
}

/// The home of the app-server that there is a connection to, or has been.
pub fn connected_home(snapshot: &CodexAppServerSnapshot) -> (r: Result<String, ConversationError>)
    ensures
        match (r, snapshot@.codex_home) {
            (Ok(home), Some(known)) => home@ == known,
            (Err(error), None) => error@ == FailureView::Busy("Codex app-server is not connected"@),
            _ => false,
        },
{
    match clone_opt(&snapshot.codex_home) {
        Some(home) => Ok(home),
        None => Err(ConversationError::Busy { reason: "Codex app-server is not connected".to_owned() }),
    }
}

/// The binding of a conversation, which operations on its thread need.
pub fn active_binding(binding: Option<CodexThreadBindingRow>, conversation_id: &str) -> (r: Result<
    CodexThreadBindingRow,
    ConversationError,
>)
    ensures
        match (r, opt_binding(binding)) {
            (Ok(row), Some(known)) => row@ == known,
            (Err(error), None) => error@ == FailureView::ActiveAgentNotFound(conversation_id@),
            _ => false,
        },
{
    match binding {
        Some(binding) => Ok(binding),
        None => Err(ConversationError::ActiveAgentNotFound { conversation_id: conversation_id.to_owned() }),
    }
}

/// An answer to a request of the app-server, and the confirmation that is over with it.
#[derive(Debug, PartialEq)]
pub struct Answer {
    pub request_id: Json,
    pub result: Json,
    pub confirmation_id: Option<String>,
}

pub struct AnswerView {
    pub request_id: Tree,
    pub result: Tree,
    pub confirmation_id: Option<Seq<char>>,
}

impl View for Answer {
    type V = AnswerView;

    open spec fn view(&self) -> AnswerView {
        AnswerView {
            request_id: self.request_id@,
            result: self.result@,
            confirmation_id: opt_string(self.confirmation_id),
        }
    }
}

/// The answer to this request that a user gives.
pub open spec fn answered(request: RequestView, data: Tree, always_allow: bool) -> AnswerView {
    AnswerView {
        request_id: request.request_id,
        result: object().put("decision"@, Tree::Str(decision(data, always_allow))),
        confirmation_id: match confirmation(request) {
            Some(asked) => Some(asked.id),
            None => None,
        },
    }
}

/// The answer to a request of the app-server that a user gives.
pub fn confirm(
    snapshot: &CodexAppServerSnapshot,
    binding: &CodexThreadBindingRow,
    call_id: &str,
    data: &Json,
    always_allow: bool,
) -> (r: Result<Answer, ConversationError>)
    ensures
        match first_asked(snapshot.pending_requests.rows(), call_id@, binding.thread_id@) {
            Some(request) => {
                &&& r matches Ok(answer)
                &&& answer@ == AnswerView {
                    request_id: request.request_id,
                    result: object().put("decision"@, Tree::Str(decision(data@, always_allow))),
                    confirmation_id: match confirmation(request) {
                        Some(asked) => Some(asked.id),
                        None => None,
                    },
                }
            },
            None => {
                &&& r matches Err(error)
                &&& error@ == FailureView::BadRequest("Codex approval request is no longer pending"@)
            },
        },
        first_asked(snapshot.pending_requests.rows(), call_id@, binding.thread_id@) matches Some(request) ==> (r matches Ok(
            answer,
        ) && answer@ == answered(request, data@, always_allow)),
        is_listing(
            snapshot@.pending_requests,
            snapshot.pending_requests.names(),
            snapshot.pending_requests.rows(),
        ),
{
    match find_request(snapshot, call_id, binding.thread_id.as_str()) {
        Some(request) => {
            let confirmation_id = match pending_request_to_confirmation(&request) {
                Some(asked) => Some(asked.id),
                None => None,
            };
            Ok(
                Answer {
                    request_id: request.request_id,
                    result: approval_result(data, always_allow),
                    confirmation_id,
                },
            )
        },
        None => Err(
            ConversationError::BadRequest {
                reason: "Codex approval request is no longer pending".to_owned(),
            },
        ),
    }
}

/// An input that waits for the end of a turn.
#[derive(Debug, PartialEq, Eq)]
pub struct PendingDelivery {
    pub msg_id: String,
    pub content: String,
}

pub struct DeliveryView {
    pub msg_id: Seq<char>,
    pub content: Seq<char>,
}

impl View for PendingDelivery {
    type V = DeliveryView;

    open spec fn view(&self) -> DeliveryView {
        DeliveryView { msg_id: self.msg_id@, content: self.content@ }
    }
}

pub open spec fn deliveries(list: Seq<PendingDelivery>) -> Seq<DeliveryView> {
    list.map_values(|delivery: PendingDelivery| delivery@)
}

/// The inputs of one conversation that wait, in the order in which they came.
pub struct DeliveryQueue {
    pub list: Vec<PendingDelivery>,
}

impl View for DeliveryQueue {
    type V = Seq<DeliveryView>;

    open spec fn view(&self) -> Seq<DeliveryView> {
        deliveries(self.list@)
    }
}

/// The inputs that wait, by conversation.
pub struct PendingDeliveries {
    queues: Table<DeliveryQueue>,
}

impl View for PendingDeliveries {
    type V = Map<Seq<char>, Seq<DeliveryView>>;

    closed spec fn view(&self) -> Map<Seq<char>, Seq<DeliveryView>> {
        self.queues@
    }
}

/// The inputs of a conversation that wait.
pub open spec fn waiting(pending: Map<Seq<char>, Seq<DeliveryView>>, conversation_id: Seq<char>) -> Seq<DeliveryView> {
    match lookup(pending, conversation_id) {
        Some(queue) => queue,
        None => Seq::empty(),
    }
}

impl PendingDeliveries {
    pub fn new() -> (r: PendingDeliveries)
        ensures
            r@ == Map::<Seq<char>, Seq<DeliveryView>>::empty(),
    {
        PendingDeliveries { queues: Table::new() }
    }

    /// Keeps an input, behind those that wait already.
    pub fn hold(&mut self, conversation_id: &str, delivery: PendingDelivery)
        ensures
            final(self)@ == old(self)@.insert(
                conversation_id@,
                waiting(old(self)@, conversation_id@).push(delivery@),
            ),
    {
        let ghost before = self@;
        let mut queue = match self.queues.remove(conversation_id) {
            Some(queue) => queue,
            None => DeliveryQueue { list: Vec::new() },
        };
        let ghost prior = queue.list@;
        proof {
            assert(deliveries(prior) =~= waiting(before, conversation_id@));
        }
        queue.list.push(delivery);
        proof {
            assert(queue@ =~= deliveries(prior).push(delivery@));
        }
        self.queues.insert(conversation_id, queue);
        proof {
            assert(self@ =~= before.insert(conversation_id@, queue@));
        }
    }

    /// Takes out what waits for a conversation, in the order in which it came.
    pub fn take(&mut self, conversation_id: &str) -> (r: Vec<PendingDelivery>)
        ensures
            deliveries(r@) == waiting(old(self)@, conversation_id@),
            final(self)@ == old(self)@.remove(conversation_id@),
    {
        match self.queues.remove(conversation_id) {
            Some(queue) => queue.list,
            None => {
                let none: Vec<PendingDelivery> = Vec::new();
                proof {
                    assert(deliveries(none@) =~= Seq::<DeliveryView>::empty());
                }
                none
            },
        }
    }
}

/// An input that is held is delivered once, after those that were held before it, and those of
/// other conversations stay.
pub proof fn a_held_input_is_delivered_once(
    pending: Map<Seq<char>, Seq<DeliveryView>>,
    conversation_id: Seq<char>,
    other: Seq<char>,
    delivery: DeliveryView,
)
    ensures
        ({
            let held = pending.insert(conversation_id, waiting(pending, conversation_id).push(delivery));
            &&& waiting(held, conversation_id) == waiting(pending, conversation_id).push(delivery)
            &&& waiting(held.remove(conversation_id), conversation_id) == Seq::<DeliveryView>::empty()
            &&& other != conversation_id ==> waiting(held, other) == waiting(pending, other)
            &&& other != conversation_id ==> waiting(held.remove(conversation_id), other) == waiting(
                pending,
                other,
            )
        }),
{
}

/// Whether the thread has to be resumed before an input is sent to it.
pub fn must_resume(binding: &CodexThreadBindingRow) -> (r: bool)
    ensures
        r == (binding@.live_state != "live"@),
{
    !same(binding.live_state.as_str(), "live")
}

/// What came of an input.
pub open spec fn receipt_or_error(r: Result<CodexSendReceipt, CodexAppServerError>) -> Result<ReceiptView, ErrorView> {
    match r {
        Ok(receipt) => Ok(receipt@),
        Err(error) => Err(error@),
    }
}

pub open spec fn outcome_or_failure(r: Result<CodexNativeSendOutcome, ConversationError>) -> Result<
    OutcomeView,
    FailureView,
> {
    match r {
        Ok(outcome) => Ok(outcome@),
        Err(error) => Err(error@),
    }
}

/// What a user is told of an input. An input that the running turn does not take waits for the end
/// of the turn, where it is known which turn that is.
pub open spec fn sent(
    reply: Result<ReceiptView, ErrorView>,
    active_turn: Option<Seq<char>>,
    msg_id: Seq<char>,
) -> Result<OutcomeView, FailureView> {
    match reply {
        Ok(receipt) => Ok(
            OutcomeView {
                msg_id,
                turn_id: receipt.turn_id,
                steered: receipt.steered,
                pending_delivery: false,
            },
        ),
        Err(ErrorView::ActiveTurnNotSteerable) => match active_turn {
            Some(turn_id) => Ok(OutcomeView { msg_id, turn_id, steered: false, pending_delivery: true }),
            None => Err(FailureView::Busy("Codex is running a non-steerable internal turn"@)),
        },
        Err(error) => Err(failure(error)),
    }
}

/// Takes in what came of an input: it is held where the running turn does not take it.
pub fn send(
    pending: &mut PendingDeliveries,
    snapshot: &CodexAppServerSnapshot,
    conversation_id: &str,
    thread_id: &str,
    msg_id: &str,
    content: &str,
    reply: Result<CodexSendReceipt, CodexAppServerError>,
) -> (r: Result<CodexNativeSendOutcome, ConversationError>)
    ensures
        outcome_or_failure(r) == sent(receipt_or_error(reply), snapshot@.active_turn(thread_id@), msg_id@),
        final(pending)@ == match r {
            Ok(outcome) => if outcome.pending_delivery {
                old(pending)@.insert(
                    conversation_id@,
                    waiting(old(pending)@, conversation_id@).push(
                        DeliveryView { msg_id: msg_id@, content: content@ },
                    ),
                )
            } else {
                old(pending)@
            },
            Err(_) => old(pending)@,
        },
{
    match reply {
        Ok(receipt) => Ok(
            CodexNativeSendOutcome {
                msg_id: msg_id.to_owned(),
                turn_id: receipt.turn_id,
                steered: receipt.steered,
                pending_delivery: false,
            },
        ),
        Err(CodexAppServerError::ActiveTurnNotSteerable) => match snapshot.active_turn_id(thread_id) {
            Some(turn_id) => {
                pending.hold(
                    conversation_id,
                    PendingDelivery { msg_id: msg_id.to_owned(), content: content.to_owned() },
                );
                Ok(
                    CodexNativeSendOutcome {
                        msg_id: msg_id.to_owned(),
                        turn_id,
                        steered: false,
                        pending_delivery: true,
                    },
                )
            },
            None => Err(
                ConversationError::Busy {
                    reason: "Codex is running a non-steerable internal turn".to_owned(),
                },
            ),
        },
        Err(error) => Err(codex_error(error)),
    }
}

/// How a thread is started for a conversation.
#[derive(Debug, PartialEq)]
pub struct StartThread {
    pub cwd: String,
    pub model: Option<String>,
    pub reasoning_effort: Option<String>,
    pub extra: Json,
}

pub struct StartView {
    pub cwd: Seq<char>,
    pub model: Option<Seq<char>>,
    pub reasoning_effort: Option<Seq<char>>,
    pub extra: Tree,
}

impl View for StartThread {
    type V = StartView;

    open spec fn view(&self) -> StartView {
        StartView {
            cwd: self.cwd@,
            model: opt_string(self.model),
            reasoning_effort: opt_string(self.reasoning_effort),
            extra: self.extra@,
        }
    }
}

/// How a thread is started for a conversation with this extra data.
pub open spec fn start_in(extra: Tree) -> Result<StartView, FailureView> {
    match extra.str_at("workspace"@) {
        Some(cwd) => Ok(
            StartView {
                cwd,
                model: extra.str_at("codex_model"@),
                reasoning_effort: extra.str_at("codex_reasoning_effort"@),
                extra,
            },
        ),
        None => Err(FailureView::BadRequest("GPT Codex conversation requires a workspace"@)),
    }
}

pub open spec fn start_or_failure(r: Result<StartThread, ConversationError>) -> Result<StartView, FailureView> {
    match r {
        Ok(start) => Ok(start@),
        Err(error) => Err(error@),
    }
}

/// How a thread is started for a conversation with this extra data.
pub fn start_thread_in(extra: Json) -> (r: Result<StartThread, ConversationError>)
    ensures
        start_or_failure(r) == start_in(extra@),
{
    let cwd = match extra.str_at("workspace") {
        Some(cwd) => cwd.to_owned(),
        None => return Err(
            ConversationError::BadRequest {
                reason: "GPT Codex conversation requires a workspace".to_owned(),
            },
        ),
    };
    let model = to_owned(extra.str_at("codex_model"));
    let reasoning_effort = to_owned(extra.str_at("codex_reasoning_effort"));
    Ok(StartThread { cwd, model, reasoning_effort, extra })
}

/// How a thread is started for a conversation with extra data in this text.
pub open spec fn start_for(extra: Seq<char>) -> Result<StartView, FailureView> {
    match parsed(extra) {
        Ok(extra) => start_in(extra),
        Err(message) => Err(FailureView::Internal("invalid conversation extra: "@ + message)),
    }
}

/// How a thread is started for a conversation with extra data in this text.
pub fn start_thread_for(extra: &str) -> (r: Result<StartThread, ConversationError>)
    ensures
        start_or_failure(r) == start_for(extra@),
{
    match parse(extra) {
        Ok(extra) => start_thread_in(extra),
        Err(message) => Err(
            ConversationError::Internal { reason: concat("invalid conversation extra: ", message.as_str()) },
        ),
    }
}

/// What is to be done so that a conversation has a thread.
#[derive(Debug, PartialEq)]
pub enum BindStep {
    /// It has one already.
    Bound(CodexThreadBindingRow),
    /// A thread is to be started.
    Start(StartThread),
}

pub enum BindStepView {
    Bound(BindingView),
    Start(StartView),
}

impl View for BindStep {
    type V = BindStepView;

    open spec fn view(&self) -> BindStepView {
        match self {
            BindStep::Bound(row) => BindStepView::Bound(row@),
            BindStep::Start(start) => BindStepView::Start(start@),
        }
    }
}

/// What is to be done so that a conversation with extra data in this text has a thread, where this
/// row binds it. A binding that is there stays.
pub open spec fn next_bind_step(found: Option<BindingView>, extra: Seq<char>) -> Result<BindStepView, FailureView> {
    match found {
        Some(row) => Ok(BindStepView::Bound(row)),
        None => match start_for(extra) {
            Ok(start) => Ok(BindStepView::Start(start)),
            Err(failure) => Err(failure),
        },
    }
}

pub open spec fn bind_or_failure(r: Result<BindStep, ConversationError>) -> Result<BindStepView, FailureView> {
    match r {
        Ok(step) => Ok(step@),
        Err(error) => Err(error@),
    }
}

/// What is to be done so that a conversation with extra data in this text has a thread, where this
/// row binds it.
pub fn bind_step(found: Option<CodexThreadBindingRow>, extra: &str) -> (r: Result<BindStep, ConversationError>)
    ensures
        bind_or_failure(r) == next_bind_step(opt_binding(found), extra@),
{
    match found {
        Some(row) => Ok(BindStep::Bound(row)),
        None => match start_thread_for(extra) {
            Ok(start) => Ok(BindStep::Start(start)),
            Err(error) => Err(error),
        },
    }
}

/// The extra data of a conversation whose thread has been started.
pub open spec fn started_extra(extra: Tree, saved: BindingView, thread: Tree) -> Tree {
    let next = extra.put("codex_thread_id"@, Tree::Str(saved.thread_id)).put(
        "codex_source"@,
        Tree::Str(saved.source),
    ).put("codex_live_state"@, Tree::Str("live"@)).put("codex_thread_role"@, Tree::Str("root"@)).put(
        "codex_subagent_total_count"@,
        Tree::Int(0),
    ).put("codex_subagent_running_count"@, Tree::Int(0)).put("codex_subagent_completed_count"@, Tree::Int(0));
    match bool_in(thread.get("canAcceptDirectInput"@)) {
        Some(b) => next.put("codex_can_accept_direct_input"@, Tree::Bool(b)),
        None => next,
    }
}

/// What changes in a conversation whose thread has been started.
pub fn ensure_conversation_binding(extra: Json, saved: &CodexThreadBindingRow, thread: &Json, now: i64) -> (r:
    ConversationRowUpdate)
    requires
        extra@.takes_members(),
    ensures
        r@ == (UpdateView {
            name: None,
            extra: Some(displayed(started_extra(extra@, saved@, thread@))),
            status: None,
            updated_at: Some(now),
        }),
        is_shallow(extra@) ==> r@.stores_extra(started_extra(extra@, saved@, thread@)),
{
    proof {
        broadcast use crate::wire::a_document_stays_shallow_with_a_member;

    }
    let next = extra.put("codex_thread_id", Json::str(saved.thread_id.as_str())).put(
        "codex_source",
        Json::str(saved.source.as_str()),
    ).put("codex_live_state", Json::str("live")).put("codex_thread_role", Json::str("root")).put(
        "codex_subagent_total_count",
        Json::Int(0),
    ).put("codex_subagent_running_count", Json::Int(0)).put("codex_subagent_completed_count", Json::Int(0));
    let input: Option<bool> = match thread.get("canAcceptDirectInput") {
        Some(member) => member.as_bool(),
        None => None,
    };
    let next = match input {
        Some(b) => next.put("codex_can_accept_direct_input", Json::Bool(b)),
        None => next,
    };
    ConversationRowUpdate { name: None, extra: Some(print(&next)), status: None, updated_at: Some(now) }
}

/// Extra data from which a thread is started takes what is stored of the thread.
pub proof fn what_starts_a_thread_takes_members(extra: Tree)
    requires
        start_in(extra) is Ok,
    ensures
        extra.takes_members(),
{
}

proof fn lemma_started_names_differ()
    ensures
        "codex_thread_id"@ != "codex_source"@,
        "codex_thread_id"@ != "codex_live_state"@,
        "codex_thread_id"@ != "codex_thread_role"@,
        "codex_thread_id"@ != "codex_subagent_total_count"@,
        "codex_thread_id"@ != "codex_subagent_running_count"@,
        "codex_thread_id"@ != "codex_subagent_completed_count"@,
        "codex_thread_id"@ != "codex_can_accept_direct_input"@,
        "codex_source"@ != "codex_live_state"@,
        "codex_source"@ != "codex_thread_role"@,
        "codex_source"@ != "codex_subagent_total_count"@,
        "codex_source"@ != "codex_subagent_running_count"@,
        "codex_source"@ != "codex_subagent_completed_count"@,
        "codex_source"@ != "codex_can_accept_direct_input"@,
        "codex_live_state"@ != "codex_thread_role"@,
        "codex_live_state"@ != "codex_subagent_total_count"@,
        "codex_live_state"@ != "codex_subagent_running_count"@,
        "codex_live_state"@ != "codex_subagent_completed_count"@,
        "codex_live_state"@ != "codex_can_accept_direct_input"@,
        "codex_thread_role"@ != "codex_subagent_total_count"@,
        "codex_thread_role"@ != "codex_subagent_running_count"@,
        "codex_thread_role"@ != "codex_subagent_completed_count"@,
        "codex_thread_role"@ != "codex_can_accept_direct_input"@,
        "codex_subagent_total_count"@ != "codex_subagent_running_count"@,
        "codex_subagent_total_count"@ != "codex_subagent_completed_count"@,
        "codex_subagent_total_count"@ != "codex_can_accept_direct_input"@,
        "codex_subagent_running_count"@ != "codex_subagent_completed_count"@,
        "codex_subagent_running_count"@ != "codex_can_accept_direct_input"@,
        "codex_subagent_completed_count"@ != "codex_can_accept_direct_input"@,
{
    reveal_strlit("codex_thread_id");
    reveal_strlit("codex_source");
    reveal_strlit("codex_live_state");
    reveal_strlit("codex_thread_role");
    reveal_strlit("codex_subagent_total_count");
    reveal_strlit("codex_subagent_running_count");
    reveal_strlit("codex_subagent_completed_count");
    reveal_strlit("codex_can_accept_direct_input");
    assert("codex_thread_id"@.len() != "codex_source"@.len());
    assert("codex_thread_id"@.len() != "codex_live_state"@.len());
    assert("codex_thread_id"@.len() != "codex_thread_role"@.len());
    assert("codex_thread_id"@.len() != "codex_subagent_total_count"@.len());
    assert("codex_thread_id"@.len() != "codex_subagent_running_count"@.len());
    assert("codex_thread_id"@.len() != "codex_subagent_completed_count"@.len());
    assert("codex_thread_id"@.len() != "codex_can_accept_direct_input"@.len());
    assert("codex_source"@.len() != "codex_live_state"@.len());
    assert("codex_source"@.len() != "codex_thread_role"@.len());
    assert("codex_source"@.len() != "codex_subagent_total_count"@.len());
    assert("codex_source"@.len() != "codex_subagent_running_count"@.len());
    assert("codex_source"@.len() != "codex_subagent_completed_count"@.len());
    assert("codex_source"@.len() != "codex_can_accept_direct_input"@.len());
    assert("codex_live_state"@.len() != "codex_thread_role"@.len());
    assert("codex_live_state"@.len() != "codex_subagent_total_count"@.len());
    assert("codex_live_state"@.len() != "codex_subagent_running_count"@.len());
    assert("codex_live_state"@.len() != "codex_subagent_completed_count"@.len());
    assert("codex_live_state"@.len() != "codex_can_accept_direct_input"@.len());
    assert("codex_thread_role"@.len() != "codex_subagent_total_count"@.len());
    assert("codex_thread_role"@.len() != "codex_subagent_running_count"@.len());
    assert("codex_thread_role"@.len() != "codex_subagent_completed_count"@.len());
    assert("codex_thread_role"@.len() != "codex_can_accept_direct_input"@.len());
    assert("codex_subagent_total_count"@.len() != "codex_subagent_running_count"@.len());
    assert("codex_subagent_total_count"@.len() != "codex_subagent_completed_count"@.len());
    assert("codex_subagent_total_count"@.len() != "codex_can_accept_direct_input"@.len());
    assert("codex_subagent_running_count"@.len() != "codex_subagent_completed_count"@.len());
    assert("codex_subagent_running_count"@.len() != "codex_can_accept_direct_input"@.len());
    assert("codex_subagent_completed_count"@.len() != "codex_can_accept_direct_input"@.len());
}

/// A call that timed out, an app-server that is not there and a turn that takes no input leave the
/// conversation busy, with what is told of each; any other error is told as it reads.
pub proof fn an_app_server_that_cannot_answer_is_busy(reason: Seq<char>, code: i64, data: Option<Tree>)
    ensures
        failure(ErrorView::Timeout) == FailureView::Busy("Codex app-server request timed out"@),
        failure(ErrorView::ActiveTurnNotSteerable) == FailureView::Busy("Codex is running a non-steerable internal turn"@),
        failure(ErrorView::Unavailable(reason)) == FailureView::Busy(reason),
        failure(ErrorView::InvalidResponse(reason)) == FailureView::Internal(
            "Invalid Codex app-server response: "@ + reason,
        ),
        failure(ErrorView::Rpc { code, message: reason, data }) == FailureView::Internal(
            "Codex app-server RPC "@ + crate::text::decimal(code as int) + ": "@ + reason,
        ),
{
}

/// What a user is told of an input names the input and the turn that it went to, and whether that turn
/// was running. An input that the running turn does not take is delivered later where that turn is known,
/// and then only; any other error is told.
pub proof fn the_outcome_of_an_input_names_it(
    turn_id: Seq<char>,
    steered: bool,
    active_turn: Option<Seq<char>>,
    msg_id: Seq<char>,
    error: ErrorView,
)
    ensures
        sent(Ok(ReceiptView { turn_id, steered }), active_turn, msg_id) matches Ok(outcome) && outcome.msg_id == msg_id
            && outcome.turn_id == turn_id && outcome.steered == steered && !outcome.pending_delivery,
        sent(Err(ErrorView::ActiveTurnNotSteerable), Some(turn_id), msg_id) matches Ok(outcome) && outcome.msg_id
            == msg_id && outcome.turn_id == turn_id && !outcome.steered && outcome.pending_delivery,
        sent(Err(ErrorView::ActiveTurnNotSteerable), None, msg_id) == Err::<OutcomeView, FailureView>(
            FailureView::Busy("Codex is running a non-steerable internal turn"@),
        ),
        !(error is ActiveTurnNotSteerable) ==> sent(Err(error), active_turn, msg_id) == Err::<OutcomeView, FailureView>(
            failure(error),
        ),
{
}

/// A thread is started in the workspace that the extra data names, with the model and the effort that it
/// names, and keeps the rest of it; without a workspace none is started.
pub proof fn a_thread_is_started_in_its_workspace(extra: Tree, cwd: Seq<char>, name: Seq<char>)
    ensures
        extra.get("workspace"@) == Some(Tree::Str(cwd)) ==> (start_in(extra) matches Ok(start) && start.cwd == cwd
            && start.extra == extra),
        extra.get("workspace"@) == Some(Tree::Str(cwd)) && extra.get("codex_model"@) == Some(Tree::Str(name)) ==> (
        start_in(extra) matches Ok(start) && start.model == Some(name)),
        extra.get("workspace"@) == Some(Tree::Str(cwd)) && !(extra.get("codex_model"@) matches Some(Tree::Str(_))) ==> (
        start_in(extra) matches Ok(start) && start.model is None),
        extra.get("workspace"@) == Some(Tree::Str(cwd)) && extra.get("codex_reasoning_effort"@) == Some(Tree::Str(name))
            ==> (start_in(extra) matches Ok(start) && start.reasoning_effort == Some(name)),
        extra.get("workspace"@) == Some(Tree::Str(cwd)) && !(extra.get("codex_reasoning_effort"@) matches Some(
            Tree::Str(_),
        )) ==> (start_in(extra) matches Ok(start) && start.reasoning_effort is None),
        !(extra.get("workspace"@) matches Some(Tree::Str(_))) ==> start_in(extra) == Err::<StartView, FailureView>(
            FailureView::BadRequest("GPT Codex conversation requires a workspace"@),
        ),
{
}

/// A conversation that has a thread keeps it; a thread is started only for one that has none, from its
/// extra data, which has to be readable.
pub proof fn a_conversation_that_has_a_thread_keeps_it(row: BindingView, extra: Seq<char>)
    ensures
        next_bind_step(Some(row), extra) == Ok::<BindStepView, FailureView>(BindStepView::Bound(row)),
        parsed(extra) matches Ok(tree) ==> start_in(tree) matches Ok(start) ==> next_bind_step(None, extra) == Ok::<
            BindStepView,
            FailureView,
        >(BindStepView::Start(start)),
        parsed(extra) matches Ok(tree) ==> start_in(tree) matches Err(why) ==> next_bind_step(None, extra) == Err::<
            BindStepView,
            FailureView,
        >(why),
        parsed(extra) matches Err(message) ==> next_bind_step(None, extra) == Err::<BindStepView, FailureView>(
            FailureView::Internal("invalid conversation extra: "@ + message),
        ),
{
}

/// A conversation whose thread has been started names the thread and where it comes from, as a live one
/// of its own, without sub-agents. Whether the thread takes input is taken in where the thread says it.
/// The rest of the extra data stays.
pub proof fn a_started_thread_is_shown_live(extra: Tree, saved: BindingView, thread: Tree, b: bool, other: Seq<char>)
    requires
        extra.takes_members(),
        other != "codex_thread_id"@,
        other != "codex_source"@,
        other != "codex_live_state"@,
        other != "codex_thread_role"@,
        other != "codex_subagent_total_count"@,
        other != "codex_subagent_running_count"@,
        other != "codex_subagent_completed_count"@,
        other != "codex_can_accept_direct_input"@,
    ensures
        ({
            let next = started_extra(extra, saved, thread);
            &&& next.get("codex_thread_id"@) == Some(Tree::Str(saved.thread_id))
            &&& next.get("codex_source"@) == Some(Tree::Str(saved.source))
            &&& next.get("codex_live_state"@) == Some(Tree::Str("live"@))
            &&& next.get("codex_thread_role"@) == Some(Tree::Str("root"@))
            &&& next.get("codex_subagent_total_count"@) == Some(Tree::Int(0))
            &&& next.get("codex_subagent_running_count"@) == Some(Tree::Int(0))
            &&& next.get("codex_subagent_completed_count"@) == Some(Tree::Int(0))
            &&& thread.get("canAcceptDirectInput"@) == Some(Tree::Bool(b)) ==> next.get(
                "codex_can_accept_direct_input"@,
            ) == Some(Tree::Bool(b))
            &&& !(thread.get("canAcceptDirectInput"@) matches Some(Tree::Bool(_))) ==> next.get(
                "codex_can_accept_direct_input"@,
            ) == extra.get("codex_can_accept_direct_input"@)
            &&& next.get(other) == extra.get(other)
        }),
{
    lemma_started_names_differ();
}

/// An answer goes to the request that it is for, holds the decision and nothing else, and ends the
/// confirmation that was asked for with that request.
pub proof fn an_answer_goes_to_its_request(request: RequestView, data: Tree, always_allow: bool, other: Seq<char>)
    requires
        other != "decision"@,
    ensures
        ({
            let answer = answered(request, data, always_allow);
            &&& answer.request_id == request.request_id
            &&& answer.result.get("decision"@) == Some(Tree::Str(decision(data, always_allow)))
            &&& answer.result.get(other) is None
            &&& confirmation(request) matches Some(asked) ==> answer.confirmation_id == Some(asked.id)
            &&& confirmation(request) is None ==> answer.confirmation_id is None
        }),
{
}

} // verus!
