//! Requests of the app-server that a user confirms or refuses.
use vstd::prelude::*;

use crate::actions::{broadcast_stream, stream, Action};
use crate::items::{or_empty, unwrap_or_empty};
use crate::json::{object, Json, Tree};
use crate::protocol::{opt_json, CodexAppServerSnapshot, CodexPendingRequest, RequestView, SnapshotView};
use crate::table::is_listing;
use crate::text::{equals, opt_string, same};
use crate::wire::{key_of, request_key};

verus! {

/// One of the answers that a user can give.
#[derive(Debug, PartialEq)]
pub struct ConfirmationOption {
    pub label: String,
    pub value: Json,
    pub params: Option<Json>,
}

pub struct OptionView {
    pub label: Seq<char>,
    pub value: Tree,
    pub params: Option<Tree>,
}

impl View for ConfirmationOption {
    type V = OptionView;

    open spec fn view(&self) -> OptionView {
        OptionView { label: self.label@, value: self.value@, params: opt_json(self.params) }
    }
}

/// What a user is asked to confirm.
#[derive(Debug, PartialEq)]
pub struct Confirmation {
    pub id: String,
    pub call_id: String,
    pub title: Option<String>,
    pub action: Option<String>,
    pub description: String,
    pub command_type: Option<String>,
    pub options: Vec<ConfirmationOption>,
}

pub struct ConfirmationView {
    pub id: Seq<char>,
    pub call_id: Seq<char>,
    pub title: Option<Seq<char>>,
    pub action: Option<Seq<char>>,
    pub description: Seq<char>,
    pub command_type: Option<Seq<char>>,
    pub options: Seq<OptionView>,
}

impl View for Confirmation {
    type V = ConfirmationView;

    open spec fn view(&self) -> ConfirmationView {
        ConfirmationView {
            id: self.id@,
            call_id: self.call_id@,
            title: opt_string(self.title),
            action: opt_string(self.action),
            description: self.description@,
            command_type: opt_string(self.command_type),
            options: self.options@.map_values(|option: ConfirmationOption| option@),
        }
    }
}

/// The request is one for a command.
pub open spec fn is_command(request: RequestView) -> bool {
    request.method == "item/commandExecution/requestApproval"@
}

/// The request is one that a user confirms: for a command, or for a change to files.
pub open spec fn is_approval(request: RequestView) -> bool {
    is_command(request) || request.method == "item/fileChange/requestApproval"@
}

/// What a user is told that the request is for.
pub open spec fn description(request: RequestView) -> Seq<char> {
    let first = if is_command(request) {
        request.params.str_at("command"@)
    } else {
        request.params.str_at("reason"@)
    };
    match first {
        Some(text) => text,
        None => match request.params.str_at("reason"@) {
            Some(reason) => reason,
            None => if is_command(request) {
                "Codex requests permission to run a command"@
            } else {
                "Codex requests permission to change files"@
            },
        },
    }
}

pub open spec fn answer(label: Seq<char>, value: Seq<char>) -> OptionView {
    OptionView { label, value: Tree::Str(value), params: None }
}

/// The answers that a user can give: once, always, and no.
pub open spec fn answers() -> Seq<OptionView> {
    seq![
        answer("messages.confirmation.yesAllowOnce"@, "proceed_once"@),
        answer("messages.confirmation.yesAllowAlways"@, "proceed_always"@),
        answer("messages.confirmation.no"@, "cancel"@),
    ]
}

/// What a user is asked to confirm for a request.
pub open spec fn confirmation(request: RequestView) -> Option<ConfirmationView> {
    if is_approval(request) {
        let key = key_of(request.request_id);
        Some(
            ConfirmationView {
                id: key,
                call_id: key,
                title: None,
                action: Some(
                    if is_command(request) {
                        "exec"@
                    } else {
                        "edit"@
                    },
                ),
                description: description(request),
                command_type: Some(
                    if is_command(request) {
                        "execute"@
                    } else {
                        "edit"@
                    },
                ),
                options: answers(),
            },
        )
    } else {
        None
    }
}

fn option(label: &str, value: &str) -> (r: ConfirmationOption)
    ensures
        r@ == answer(label@, value@),
{
    ConfirmationOption { label: label.to_owned(), value: Json::str(value), params: None }
}

pub open spec fn opt_confirmation(r: Option<Confirmation>) -> Option<ConfirmationView> {
    match r {
        Some(r) => Some(r@),
        None => None,
    }
}

/// What a user is asked to confirm for a request.
pub fn pending_request_to_confirmation(request: &CodexPendingRequest) -> (r: Option<Confirmation>)
    ensures
        opt_confirmation(r) == confirmation(request@),
{
    let command = same(request.method.as_str(), "item/commandExecution/requestApproval");
    if !command && !same(request.method.as_str(), "item/fileChange/requestApproval") {
        return None;
    }
    let call_id = request_key(&request.request_id);
    let first = if command {
        request.params.str_at("command")
    } else {
        request.params.str_at("reason")
    };
    let text = match first {
        Some(text) => text.to_owned(),
        None => match request.params.str_at("reason") {
            Some(reason) => reason.to_owned(),
            None => if command {
                "Codex requests permission to run a command".to_owned()
            } else {
                "Codex requests permission to change files".to_owned()
            },
        },
    };
    let options = vec![
        option("messages.confirmation.yesAllowOnce", "proceed_once"),
        option("messages.confirmation.yesAllowAlways", "proceed_always"),
        option("messages.confirmation.no", "cancel"),
    ];
    proof {
        assert(options@.map_values(|option: ConfirmationOption| option@) =~= answers());
    }
    Some(
        Confirmation {
            id: call_id.clone(),
            call_id,
            title: None,
            action: Some(
                if command {
                    "exec".to_owned()
                } else {
                    "edit".to_owned()
                },
            ),
            description: text,
            command_type: Some(
                if command {
                    "execute".to_owned()
                } else {
                    "edit".to_owned()
                },
            ),
            options,
        },
    )
}

/// The request is about the thread.
pub open spec fn concerns(request: RequestView, thread_id: Seq<char>) -> bool {
    request.params.str_at("threadId"@) == Some(thread_id)
}

/// What a user is asked to confirm for those of the requests that are about a thread.
pub open spec fn confirmations(requests: Seq<RequestView>, thread_id: Seq<char>) -> Seq<ConfirmationView>
    decreases requests.len(),
{
    if requests.len() == 0 {
        Seq::empty()
    } else {
        let before = confirmations(requests.drop_last(), thread_id);
        let request = requests.last();
        match confirmation(request) {
            Some(asked) => if concerns(request, thread_id) {
                before.push(asked)
            } else {
                before
            },
            None => before,
        }
    }
}

pub open spec fn all_asked(list: Seq<Confirmation>) -> Seq<ConfirmationView> {
    list.map_values(|asked: Confirmation| asked@)
}

/// What a user is asked to confirm for a thread, one for each request that waits for an answer.
pub fn list_confirmations(snapshot: &CodexAppServerSnapshot, thread_id: &str) -> (r: Vec<Confirmation>)
    ensures
        all_asked(r@) == confirmations(snapshot.pending_requests.rows(), thread_id@),
        is_listing(
            snapshot@.pending_requests,
            snapshot.pending_requests.names(),
            snapshot.pending_requests.rows(),
        ),
{
    let total: usize = snapshot.pending_requests.len();
    let ghost rows = snapshot.pending_requests.rows();
    let mut list: Vec<Confirmation> = Vec::new();
    let mut i: usize = 0;
    proof {
        assert(all_asked(list@) =~= confirmations(rows.take(0), thread_id@));
    }
    while i < total
        invariant
            i <= total,
            total == rows.len(),
            rows == snapshot.pending_requests.rows(),
            all_asked(list@) == confirmations(rows.take(i as int), thread_id@),
        decreases total - i,
    {
        let ghost prior = list@;
        proof {
            assert(rows.take(i + 1).drop_last() =~= rows.take(i as int));
            assert(rows.take(i + 1).last() == rows[i as int]);
        }
        let request = snapshot.pending_requests.at(i);
        if equals(request.params.str_at("threadId"), thread_id) {
            if let Some(asked) = pending_request_to_confirmation(request) {
                list.push(asked);
                proof {
                    assert(all_asked(list@) =~= all_asked(prior).push(asked@));
                }
            }
        }
        i = i + 1;
    }
    proof {
        assert(rows.take(i as int) =~= rows);
    }
    list
}

/// The request has this key, and is about the thread.
pub open spec fn is_asked(request: RequestView, call_id: Seq<char>, thread_id: Seq<char>) -> bool {
    key_of(request.request_id) == call_id && concerns(request, thread_id)
}

/// The first of the requests that has this key and is about the thread.
pub open spec fn first_asked(requests: Seq<RequestView>, call_id: Seq<char>, thread_id: Seq<char>) -> Option<RequestView>
    decreases requests.len(),
{
    if requests.len() == 0 {
        None
    } else if is_asked(requests[0], call_id, thread_id) {
        Some(requests[0])
    } else {
        first_asked(requests.drop_first(), call_id, thread_id)
    }
}

pub open spec fn opt_request(r: Option<CodexPendingRequest>) -> Option<RequestView> {
    match r {
        Some(r) => Some(r@),
        None => None,
    }
}

/// The request that waits for this answer.
pub fn find_request(snapshot: &CodexAppServerSnapshot, call_id: &str, thread_id: &str) -> (r: Option<CodexPendingRequest>)
    ensures
        opt_request(r) == first_asked(snapshot.pending_requests.rows(), call_id@, thread_id@),
        is_listing(
            snapshot@.pending_requests,
            snapshot.pending_requests.names(),
            snapshot.pending_requests.rows(),
        ),
{
    let total: usize = snapshot.pending_requests.len();
    let ghost rows = snapshot.pending_requests.rows();
    let mut i: usize = 0;
    proof {
        assert(rows.skip(0) =~= rows);
    }
    while i < total
        invariant
            i <= total,
            total == rows.len(),
            rows == snapshot.pending_requests.rows(),
            is_listing(
                snapshot@.pending_requests,
                snapshot.pending_requests.names(),
                snapshot.pending_requests.rows(),
            ),
            first_asked(rows, call_id@, thread_id@) == first_asked(rows.skip(i as int), call_id@, thread_id@),
        decreases total - i,
    {
        proof {
            assert(rows.skip(i as int)[0] == rows[i as int]);
            assert(rows.skip(i as int).drop_first() =~= rows.skip(i + 1));
        }
        let request = snapshot.pending_requests.at(i);
        if same(request_key(&request.request_id).as_str(), call_id) && equals(
            request.params.str_at("threadId"),
            thread_id,
        ) {
            return Some(request.clone());
        }
        i = i + 1;
    }
    None
}

/// Each request is kept under its own key.
pub open spec fn requests_keyed(snapshot: SnapshotView) -> bool {
    forall|key: Seq<char>| #[trigger]
        snapshot.pending_requests.contains_key(key) ==> key_of(snapshot.pending_requests[key].request_id) == key
}

/// Whatever happens, each request stays kept under its own key.
pub proof fn requests_stay_keyed(
    snapshot: SnapshotView,
    incoming: crate::rpc::IncomingView,
    thread: Tree,
    request_id: Tree,
    codex_home: Seq<char>,
    user_agent: Seq<char>,
)
    requires
        requests_keyed(snapshot),
    ensures
        requests_keyed(crate::protocol::blank_snapshot()),
        requests_keyed(snapshot.after(incoming)),
        requests_keyed(snapshot.recorded(thread)),
        requests_keyed(snapshot.without_request(request_id)),
        requests_keyed(snapshot.connected_to(codex_home, user_agent)),
        requests_keyed(snapshot.disconnected()),
{
}

proof fn lemma_first_asked(requests: Seq<RequestView>, call_id: Seq<char>, thread_id: Seq<char>)
    ensures
        match first_asked(requests, call_id, thread_id) {
            Some(request) => is_asked(request, call_id, thread_id) && exists|i: int|
                0 <= i < requests.len() && #[trigger] requests[i] == request,
            None => forall|i: int| 0 <= i < requests.len() ==> !is_asked(#[trigger] requests[i], call_id, thread_id),
        },
    decreases requests.len(),
{
    if requests.len() > 0 && !is_asked(requests[0], call_id, thread_id) {
        let rest = requests.drop_first();
        lemma_first_asked(rest, call_id, thread_id);
        match first_asked(rest, call_id, thread_id) {
            Some(request) => {
                let i = choose|i: int| 0 <= i < rest.len() && #[trigger] rest[i] == request;
                assert(requests[i + 1] == request);
            },
            None => {
                assert forall|i: int| 0 <= i < requests.len() implies !is_asked(
                    #[trigger] requests[i],
                    call_id,
                    thread_id,
                ) by {
                    if i > 0 {
                        assert(rest[i - 1] == requests[i]);
                    }
                }
            },
        }
    }
}

/// Where each request is kept under its own key, the request that an answer is for is the one that
/// is kept under the answer's key, if it is about the thread. In which order the requests are
/// looked at makes no difference.
pub proof fn an_answer_is_for_one_request(
    snapshot: SnapshotView,
    names: Seq<Seq<char>>,
    rows: Seq<RequestView>,
    call_id: Seq<char>,
    thread_id: Seq<char>,
)
    requires
        requests_keyed(snapshot),
        is_listing(snapshot.pending_requests, names, rows),
    ensures
        first_asked(rows, call_id, thread_id) == match crate::table::lookup(snapshot.pending_requests, call_id) {
            Some(request) => if concerns(request, thread_id) {
                Some(request)
            } else {
                None
            },
            None => None,
        },
{
    let kept = snapshot.pending_requests;
    lemma_first_asked(rows, call_id, thread_id);
    match first_asked(rows, call_id, thread_id) {
        Some(request) => {
            let i = choose|i: int| 0 <= i < rows.len() && #[trigger] rows[i] == request;
            assert(kept[names[i]] == rows[i]);
            assert(names.contains(names[i]));
            assert(kept.contains_key(names[i]));
            assert(names[i] == call_id);
        },
        None => {
            if kept.contains_key(call_id) {
                assert(names.contains(call_id));
                let i = choose|i: int| 0 <= i < names.len() && names[i] == call_id;
                assert(kept[names[i]] == rows[i]);
                assert(!is_asked(rows[i], call_id, thread_id));
            }
        },
    }
}

/// The answer that a user selected.
pub open spec fn selected(data: Tree) -> Seq<char> {
    match data.str_at("value"@) {
        Some(value) => value,
        None => match data.as_str() {
            Some(value) => value,
            None => "cancel"@,
        },
    }
}

/// The decision that the app-server is told, for an answer. Anything that it does not know is no.
pub open spec fn decision(data: Tree, always_allow: bool) -> Seq<char> {
    let value = selected(data);
    if always_allow || value == "proceed_always"@ {
        "acceptForSession"@
    } else if value == "proceed_once"@ || value == "accept"@ {
        "accept"@
    } else if value == "decline"@ {
        "decline"@
    } else {
        "cancel"@
    }
}

/// What answers a request for a user's answer.
pub fn approval_result(data: &Json, always_allow: bool) -> (r: Json)
    ensures
        r@ == object().put("decision"@, Tree::Str(decision(data@, always_allow))),
        r@.get("decision"@) == Some(Tree::Str(decision(data@, always_allow))),
{
    let value = match data.str_at("value") {
        Some(value) => value,
        None => match data.as_str() {
            Some(value) => value,
            None => "cancel",
        },
    };
    let told = if always_allow || same(value, "proceed_always") {
        "acceptForSession"
    } else if same(value, "proceed_once") || same(value, "accept") {
        "accept"
    } else if same(value, "decline") {
        "decline"
    } else {
        "cancel"
    };
    Json::object().put("decision", Json::str(told))
}

/// Nothing is allowed but by an answer that says so: without a word for it, and without leave for
/// all of them, the decision is a refusal.
pub proof fn nothing_is_allowed_unasked(data: Tree, always_allow: bool)
    ensures
        decision(data, always_allow) == "accept"@ || decision(data, always_allow) == "acceptForSession"@
            <==> always_allow || selected(data) == "proceed_once"@ || selected(data) == "accept"@ || selected(
            data,
        ) == "proceed_always"@,
{
    reveal_strlit("accept");
    reveal_strlit("acceptForSession");
    reveal_strlit("decline");
    reveal_strlit("cancel");
    assert("accept"@.len() != "acceptForSession"@.len());
    assert("accept"@.len() != "decline"@.len());
    assert("accept"@[0] != "cancel"@[0]);
    assert("acceptForSession"@.len() != "decline"@.len());
    assert("acceptForSession"@.len() != "cancel"@.len());
}

/// The part of a conversation's stream that asks a user to confirm a request. `data` is the
/// confirmation as a document.
pub fn permission_stream(request: &CodexPendingRequest, data: Json, conversation_id: &str, now: i64) -> (r: Action)
    ensures
        r@ == stream(
            conversation_id@,
            key_of(request@.request_id),
            or_empty(request@.params.str_at("turnId"@)),
            "permission"@,
            data@,
            None,
            now,
        ),
{
    let call_id = request_key(&request.request_id);
    let turn_id = unwrap_or_empty(request.params.str_at("turnId"));
    broadcast_stream(conversation_id, call_id.as_str(), turn_id, "permission", data, None, now)
}

proof fn lemma_answers_differ()
    ensures
        "proceed_once"@ != "proceed_always"@,
        "proceed_once"@ != "cancel"@,
        "proceed_once"@ != "accept"@,
        "proceed_once"@ != "decline"@,
        "proceed_once"@ != "messages.confirmation.yesAllowOnce"@,
        "proceed_once"@ != "messages.confirmation.yesAllowAlways"@,
        "proceed_once"@ != "messages.confirmation.no"@,
        "proceed_always"@ != "cancel"@,
        "proceed_always"@ != "accept"@,
        "proceed_always"@ != "decline"@,
        "proceed_always"@ != "messages.confirmation.yesAllowOnce"@,
        "proceed_always"@ != "messages.confirmation.yesAllowAlways"@,
        "proceed_always"@ != "messages.confirmation.no"@,
        "cancel"@ != "accept"@,
        "cancel"@ != "decline"@,
        "cancel"@ != "messages.confirmation.yesAllowOnce"@,
        "cancel"@ != "messages.confirmation.yesAllowAlways"@,
        "cancel"@ != "messages.confirmation.no"@,
        "accept"@ != "decline"@,
        "accept"@ != "messages.confirmation.yesAllowOnce"@,
        "accept"@ != "messages.confirmation.yesAllowAlways"@,
        "accept"@ != "messages.confirmation.no"@,
        "decline"@ != "messages.confirmation.yesAllowOnce"@,
        "decline"@ != "messages.confirmation.yesAllowAlways"@,
        "decline"@ != "messages.confirmation.no"@,
        "messages.confirmation.yesAllowOnce"@ != "messages.confirmation.yesAllowAlways"@,
        "messages.confirmation.yesAllowOnce"@ != "messages.confirmation.no"@,
        "messages.confirmation.yesAllowAlways"@ != "messages.confirmation.no"@,
{
    reveal_strlit("proceed_once");
    reveal_strlit("proceed_always");
    reveal_strlit("cancel");
    reveal_strlit("accept");
    reveal_strlit("decline");
    reveal_strlit("messages.confirmation.yesAllowOnce");
    reveal_strlit("messages.confirmation.yesAllowAlways");
    reveal_strlit("messages.confirmation.no");
    assert("proceed_once"@.len() != "proceed_always"@.len());
    assert("proceed_once"@.len() != "cancel"@.len());
    assert("proceed_once"@.len() != "accept"@.len());
    assert("proceed_once"@.len() != "decline"@.len());
    assert("proceed_once"@.len() != "messages.confirmation.yesAllowOnce"@.len());
    assert("proceed_once"@.len() != "messages.confirmation.yesAllowAlways"@.len());
    assert("proceed_once"@.len() != "messages.confirmation.no"@.len());
    assert("proceed_always"@.len() != "cancel"@.len());
    assert("proceed_always"@.len() != "accept"@.len());
    assert("proceed_always"@.len() != "decline"@.len());
    assert("proceed_always"@.len() != "messages.confirmation.yesAllowOnce"@.len());
    assert("proceed_always"@.len() != "messages.confirmation.yesAllowAlways"@.len());
    assert("proceed_always"@.len() != "messages.confirmation.no"@.len());
    assert("cancel"@[0] != "accept"@[0]);
    assert("cancel"@.len() != "decline"@.len());
    assert("cancel"@.len() != "messages.confirmation.yesAllowOnce"@.len());
    assert("cancel"@.len() != "messages.confirmation.yesAllowAlways"@.len());
    assert("cancel"@.len() != "messages.confirmation.no"@.len());
    assert("accept"@.len() != "decline"@.len());
    assert("accept"@.len() != "messages.confirmation.yesAllowOnce"@.len());
    assert("accept"@.len() != "messages.confirmation.yesAllowAlways"@.len());
    assert("accept"@.len() != "messages.confirmation.no"@.len());
    assert("decline"@.len() != "messages.confirmation.yesAllowOnce"@.len());
    assert("decline"@.len() != "messages.confirmation.yesAllowAlways"@.len());
    assert("decline"@.len() != "messages.confirmation.no"@.len());
    assert("messages.confirmation.yesAllowOnce"@.len() != "messages.confirmation.yesAllowAlways"@.len());
    assert("messages.confirmation.yesAllowOnce"@.len() != "messages.confirmation.no"@.len());
    assert("messages.confirmation.yesAllowAlways"@.len() != "messages.confirmation.no"@.len());
}
proof fn lemma_kinds_of_approval()
    ensures
        "item/commandExecution/requestApproval"@ != "item/fileChange/requestApproval"@,
{
    reveal_strlit("item/commandExecution/requestApproval");
    reveal_strlit("item/fileChange/requestApproval");
    assert("item/commandExecution/requestApproval"@.len() != "item/fileChange/requestApproval"@.len());
}

/// Each answer that a user is offered means what its label says when it is given: once, for the
/// session, or not at all; and each of the three is offered exactly once, to every request that a user
/// confirms.
pub proof fn an_answer_means_what_its_label_says(request: RequestView, asked: ConfirmationView, i: int, data: Tree)
    requires
        confirmation(request) == Some(asked),
        0 <= i < asked.options.len(),
        data == asked.options[i].value || data.get("value"@) == Some(asked.options[i].value),
    ensures
        asked.options.len() == 3,
        asked.options[0].label == "messages.confirmation.yesAllowOnce"@,
        asked.options[1].label == "messages.confirmation.yesAllowAlways"@,
        asked.options[2].label == "messages.confirmation.no"@,
        asked.options[i].label == "messages.confirmation.yesAllowOnce"@ ==> decision(data, false) == "accept"@,
        asked.options[i].label == "messages.confirmation.yesAllowAlways"@ ==> decision(data, false)
            == "acceptForSession"@,
        asked.options[i].label == "messages.confirmation.no"@ ==> decision(data, false) == "cancel"@,
        asked.options[i].params is None,
{
    lemma_answers_differ();
}

/// Leave for the whole session that is given with an answer is told, whatever the answer; an answer
/// that refuses is told as that refusal; and what is no answer at all refuses.
pub proof fn a_decision_follows_the_answer(data: Tree, value: Seq<char>)
    ensures
        decision(data, true) == "acceptForSession"@,
        data.get("value"@) == Some(Tree::Str(value)) || (data == Tree::Str(value)) ==> {
            &&& value == "proceed_once"@ || value == "accept"@ ==> decision(data, false) == "accept"@
            &&& value == "proceed_always"@ ==> decision(data, false) == "acceptForSession"@
            &&& value == "decline"@ ==> decision(data, false) == "decline"@
            &&& value != "proceed_once"@ && value != "accept"@ && value != "proceed_always"@ && value != "decline"@
                ==> decision(data, false) == "cancel"@
        },
        !(data.get("value"@) matches Some(Tree::Str(_))) && !(data is Str) ==> decision(data, false) == "cancel"@,
{
    lemma_answers_differ();
}

/// A user is asked for commands and for changes to files, and for nothing else. The question goes by
/// the key of the request, and shows the command, or the reason that is given, or else what kind of
/// permission is wanted.
pub proof fn a_user_is_asked_for_commands_and_changes(request: RequestView, text: Seq<char>)
    ensures
        request.method != "item/commandExecution/requestApproval"@ && request.method != "item/fileChange/requestApproval"@
            ==> confirmation(request) is None,
        request.method == "item/commandExecution/requestApproval"@ ==> {
            &&& confirmation(request) matches Some(asked)
            &&& asked.id == key_of(request.request_id) && asked.call_id == key_of(request.request_id)
            &&& asked.title is None
            &&& asked.action == Some("exec"@)
            &&& asked.command_type == Some("execute"@)
            &&& request.params.get("command"@) == Some(Tree::Str(text)) ==> asked.description == text
            &&& !(request.params.get("command"@) matches Some(Tree::Str(_))) && request.params.get("reason"@) == Some(
                Tree::Str(text),
            ) ==> asked.description == text
            &&& !(request.params.get("command"@) matches Some(Tree::Str(_))) && !(request.params.get("reason"@) matches Some(
                Tree::Str(_),
            )) ==> asked.description == "Codex requests permission to run a command"@
        },
        request.method == "item/fileChange/requestApproval"@ ==> {
            &&& confirmation(request) matches Some(asked)
            &&& asked.id == key_of(request.request_id) && asked.call_id == key_of(request.request_id)
            &&& asked.title is None
            &&& asked.action == Some("edit"@)
            &&& asked.command_type == Some("edit"@)
            &&& request.params.get("reason"@) == Some(Tree::Str(text)) ==> asked.description == text
            &&& !(request.params.get("reason"@) matches Some(Tree::Str(_))) ==> asked.description
                == "Codex requests permission to change files"@
        },
{
    lemma_kinds_of_approval();
}

/// What a user is asked for a thread is what the requests ask that name the thread, each of them, and
/// nothing else.
pub proof fn every_request_about_a_thread_is_asked(requests: Seq<RequestView>, thread_id: Seq<char>, asked: ConfirmationView)
    ensures
        confirmations(requests, thread_id).contains(asked) <==> exists|i: int|
            0 <= i < requests.len() && (#[trigger] requests[i]).params.get("threadId"@) == Some(Tree::Str(thread_id))
                && confirmation(requests[i]) == Some(asked),
        confirmations(requests, thread_id).len() <= requests.len(),
    decreases requests.len(),
{
    let all = confirmations(requests, thread_id);
    if requests.len() > 0 {
        let front = requests.drop_last();
        let before = confirmations(front, thread_id);
        let last = requests.last();
        every_request_about_a_thread_is_asked(front, thread_id, asked);
        if all.contains(asked) {
            let k = choose|k: int| 0 <= k < all.len() && all[k] == asked;
            if k < before.len() {
                assert(before[k] == asked);
                assert(before.contains(asked));
                let i = choose|i: int|
                    0 <= i < front.len() && (#[trigger] front[i]).params.get("threadId"@) == Some(Tree::Str(thread_id))
                        && confirmation(front[i]) == Some(asked);
                assert(requests[i] == front[i]);
            } else {
                assert(requests[requests.len() - 1] == last);
                assert(last.params.get("threadId"@) == Some(Tree::Str(thread_id)));
            }
        }
        if exists|i: int|
            0 <= i < requests.len() && (#[trigger] requests[i]).params.get("threadId"@) == Some(Tree::Str(thread_id))
                && confirmation(requests[i]) == Some(asked) {
            let i = choose|i: int|
                0 <= i < requests.len() && (#[trigger] requests[i]).params.get("threadId"@) == Some(
                    Tree::Str(thread_id),
                ) && confirmation(requests[i]) == Some(asked);
            if i < front.len() {
                assert(front[i] == requests[i]);
                assert(before.contains(asked));
                let k = choose|k: int| 0 <= k < before.len() && before[k] == asked;
                assert(all[k] == asked);
            } else {
                assert(all[all.len() - 1] == asked);
            }
        }
    }
}

/// The request that an answer with this key is for is about the thread, and has this key; and one such
/// is found wherever there is one.
pub proof fn a_request_is_found_by_its_key(requests: Seq<RequestView>, call_id: Seq<char>, thread_id: Seq<char>)
    ensures
        first_asked(requests, call_id, thread_id) matches Some(request) ==> requests.contains(request) && key_of(
            request.request_id,
        ) == call_id && request.params.get("threadId"@) == Some(Tree::Str(thread_id)),
        first_asked(requests, call_id, thread_id) is None ==> forall|i: int|
            0 <= i < requests.len() ==> !(key_of((#[trigger] requests[i]).request_id) == call_id
                && requests[i].params.get("threadId"@) == Some(Tree::Str(thread_id))),
{
    lemma_first_asked(requests, call_id, thread_id);
    if first_asked(requests, call_id, thread_id) is None {
        assert forall|i: int| 0 <= i < requests.len() implies !(key_of((#[trigger] requests[i]).request_id) == call_id
            && requests[i].params.get("threadId"@) == Some(Tree::Str(thread_id))) by {
            assert(!is_asked(requests[i], call_id, thread_id));
        }
    }
}

} // verus!
