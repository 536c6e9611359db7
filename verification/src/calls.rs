//! The calls that a client makes of the Codex app-server, and what their replies give it.
use vstd::prelude::*;

use crate::json::{i64_in, str_in, strings_in, strings_of, trees, Json, Tree};
use crate::protocol::{
    CodexAppServerError, CodexAppServerSnapshot, CodexSendReceipt, ErrorView, ReceiptView,
};
use crate::rpc::{outcome, parse_rpc_response, rpc_result};
use crate::text::{all_chars, concat, opt_string, to_owned};
use crate::wire::{parse, parsed};

verus! {

/// The error that a reply without a part is.
pub open spec fn omitted(what: Seq<char>) -> ErrorView {
    ErrorView::InvalidResponse(what)
}

fn omits(what: &str) -> (r: CodexAppServerError)
    ensures
        r@ == omitted(what@),
{
    CodexAppServerError::InvalidResponse(what.to_owned())
}

/// The reply to the opening frame: the frames before it do not count.
pub open spec fn opening_reply(envelope: Tree) -> Result<Option<Tree>, ErrorView> {
    if i64_in(envelope.get("id"@)) == Some(0i64) {
        match rpc_result(envelope) {
            Ok(result) => Ok(Some(result)),
            Err(error) => Err(error),
        }
    } else {
        Ok(None)
    }
}

pub open spec fn opening_outcome(r: Result<Option<Json>, CodexAppServerError>) -> Result<Option<Tree>, ErrorView> {
    match r {
        Ok(json) => Ok(crate::protocol::opt_json(json)),
        Err(error) => Err(error@),
    }
}

/// The result of the opening frame, where this envelope is the reply to it.
pub fn handshake_envelope(envelope: &Json) -> (r: Result<Option<Json>, CodexAppServerError>)
    ensures
        opening_outcome(r) == opening_reply(envelope@),
{
    let id: Option<i64> = match envelope.get("id") {
        Some(id) => id.as_i64(),
        None => None,
    };
    match id {
        Some(0) => match parse_rpc_response(envelope) {
            Ok(result) => Ok(Some(result)),
            Err(error) => Err(error),
        },
        _ => Ok(None),
    }
}

/// The result of the opening frame, where this text is the reply to it.
pub fn handshake(text: &str) -> (r: Result<Option<Json>, CodexAppServerError>)
    ensures
        opening_outcome(r) == match parsed(text@) {
            Ok(envelope) => opening_reply(envelope),
            Err(message) => Err(ErrorView::InvalidResponse(message)),
        },
{
    match parse(text) {
        Ok(envelope) => handshake_envelope(&envelope),
        Err(message) => Err(CodexAppServerError::InvalidResponse(message)),
    }
}

/// The user agent and the home that the app-server names when a connection opens.
pub open spec fn identity(result: Tree) -> Result<(Seq<char>, Seq<char>), ErrorView> {
    match (result.str_at("userAgent"@), result.str_at("codexHome"@)) {
        (Some(user_agent), Some(codex_home)) => Ok((user_agent, codex_home)),
        (Some(_), None) => Err(omitted("initialize omitted codexHome"@)),
        (None, _) => Err(omitted("initialize omitted userAgent"@)),
    }
}

/// The user agent and the home that the app-server names when a connection opens.
pub fn server_identity(result: &Json) -> (r: Result<(String, String), CodexAppServerError>)
    ensures
        match r {
            Ok(pair) => identity(result@) == Ok::<(Seq<char>, Seq<char>), ErrorView>((pair.0@, pair.1@)),
            Err(error) => identity(result@) == Err::<(Seq<char>, Seq<char>), ErrorView>(error@),
        },
{
    let user_agent = match result.str_at("userAgent") {
        Some(user_agent) => user_agent.to_owned(),
        None => return Err(omits("initialize omitted userAgent")),
    };
    match result.str_at("codexHome") {
        Some(codex_home) => Ok((user_agent, codex_home.to_owned())),
        None => Err(omits("initialize omitted codexHome")),
    }
}

/// A page of threads, and where the next one starts.
#[derive(Debug, PartialEq)]
pub struct CodexThreadPage {
    pub threads: Vec<Json>,
    pub next_cursor: Option<String>,
}

pub struct PageView {
    pub threads: Seq<Tree>,
    pub next_cursor: Option<Seq<char>>,
}

impl View for CodexThreadPage {
    type V = PageView;

    open spec fn view(&self) -> PageView {
        PageView { threads: trees(self.threads@), next_cursor: opt_string(self.next_cursor) }
    }
}

/// The page that the reply to `thread/list` holds.
pub open spec fn page_in(response: Tree) -> Result<PageView, ErrorView> {
    match response.get("data"@) {
        Some(Tree::Array(threads)) => Ok(
            PageView { threads, next_cursor: response.str_at("nextCursor"@) },
        ),
        _ => Err(omitted("thread/list omitted data"@)),
    }
}

pub(crate) fn clone_all(items: &Vec<Json>) -> (r: Vec<Json>)
    ensures
        trees(r@) == trees(items@),
{
    let mut r: Vec<Json> = Vec::new();
    let mut i: usize = 0;
    while i < items.len()
        invariant
            i <= items@.len(),
            r@.len() == i,
            forall|j: int| 0 <= j < i ==> (#[trigger] r@[j])@ == items@[j]@,
        decreases items@.len() - i,
    {
        r.push(items[i].clone());
        i = i + 1;
    }
    proof {
        assert(trees(r@) =~= trees(items@));
    }
    r
}

/// The page that the reply to `thread/list` holds.
pub fn thread_page(response: &Json) -> (r: Result<CodexThreadPage, CodexAppServerError>)
    ensures
        match r {
            Ok(page) => page_in(response@) == Ok::<PageView, ErrorView>(page@),
            Err(error) => page_in(response@) == Err::<PageView, ErrorView>(error@),
        },
{
    let threads = match response.get("data") {
        Some(data) => match data.as_array() {
            Some(threads) => clone_all(threads),
            None => return Err(omits("thread/list omitted data")),
        },
        None => return Err(omits("thread/list omitted data")),
    };
    Ok(CodexThreadPage { threads, next_cursor: to_owned(response.str_at("nextCursor")) })
}

/// The threads of a listing that comes page by page.
pub struct ThreadListing {
    pub threads: Vec<Json>,
    pub cursor: Option<String>,
    pub complete: bool,
}

impl ThreadListing {
    pub fn new() -> (r: ThreadListing)
        ensures
            trees(r.threads@) == Seq::<Tree>::empty(),
            r.cursor is None,
            !r.complete,
    {
        let threads: Vec<Json> = Vec::new();
        proof {
            assert(trees(threads@) =~= Seq::<Tree>::empty());
        }
        ThreadListing { threads, cursor: None, complete: false }
    }

    /// Adds the page that a reply holds. The listing is complete with a page that names no next
    /// one; a reply without a page leaves the listing as it was.
    pub fn add_page(&mut self, response: &Json) -> (r: Result<(), CodexAppServerError>)
        ensures
            match page_in(response@) {
                Ok(page) => {
                    &&& r is Ok
                    &&& trees(final(self).threads@) == trees(old(self).threads@) + page.threads
                    &&& opt_string(final(self).cursor) == page.next_cursor
                    &&& final(self).complete == (page.next_cursor is None)
                },
                Err(error) => {
                    &&& r matches Err(e)
                    &&& e@ == error
                    &&& *final(self) == *old(self)
                },
            },
    {
        match thread_page(response) {
            Ok(page) => {
                let ghost prior = self.threads@;
                let mut more = page.threads;
                let ghost added = more@;
                self.threads.append(&mut more);
                proof {
                    assert(self.threads@ =~= prior + added);
                    assert(trees(self.threads@) =~= trees(prior) + trees(added));
                }
                self.complete = page.next_cursor.is_none();
                self.cursor = page.next_cursor;
                Ok(())
            },
            Err(error) => Err(error),
        }
    }
}

/// The ids that the reply to `thread/loaded/list` holds.
pub open spec fn loaded_in(response: Tree) -> Result<Seq<Seq<char>>, ErrorView> {
    match response.get("data"@) {
        Some(Tree::Array(items)) => Ok(strings_in(items)),
        _ => Err(omitted("thread/loaded/list omitted data"@)),
    }
}

/// The ids that the reply to `thread/loaded/list` holds.
pub fn loaded_thread_ids(response: &Json) -> (r: Result<Vec<String>, CodexAppServerError>)
    ensures
        match r {
            Ok(ids) => loaded_in(response@) == Ok::<Seq<Seq<char>>, ErrorView>(all_chars(ids@)),
            Err(error) => loaded_in(response@) == Err::<Seq<Seq<char>>, ErrorView>(error@),
        },
{
    match response.get("data") {
        Some(data) => match data.as_array() {
            Some(items) => Ok(strings_of(items)),
            None => Err(omits("thread/loaded/list omitted data")),
        },
        None => Err(omits("thread/loaded/list omitted data")),
    }
}

/// The thread that the reply to a call holds.
pub open spec fn thread_in(method: Seq<char>, response: Tree) -> Result<Tree, ErrorView> {
    match response.get("thread"@) {
        Some(thread) => Ok(thread),
        None => Err(omitted(method + " omitted thread"@)),
    }
}

/// Takes the thread that the reply to `thread/read`, `thread/resume` or `thread/start` holds.
pub fn take_thread(snapshot: &mut CodexAppServerSnapshot, method: &str, response: &Json) -> (r: Result<
    Json,
    CodexAppServerError,
>)
    ensures
        outcome(r) == thread_in(method@, response@),
        final(snapshot)@ == match thread_in(method@, response@) {
            Ok(thread) => old(snapshot)@.recorded(thread),
            Err(_) => old(snapshot)@,
        },
{
    match response.get("thread") {
        Some(thread) => {
            snapshot.record_thread_snapshot(thread);
            Ok(thread.clone())
        },
        None => Err(omits(concat(method, " omitted thread").as_str())),
    }
}

/// How an input is sent to a thread.
#[derive(Debug, PartialEq, Eq)]
pub enum SendStep {
    /// It starts a turn.
    Start,
    /// It goes to the turn that runs.
    Steer { turn_id: String },
}

/// How an input is sent: to the turn that runs, where one is known.
pub fn send_step(snapshot: &CodexAppServerSnapshot, thread_id: &str) -> (r: SendStep)
    ensures
        match r {
            SendStep::Start => snapshot@.active_turn(thread_id@) is None,
            SendStep::Steer { turn_id } => snapshot@.active_turn(thread_id@) == Some(turn_id@),
        },
{
    match snapshot.active_turn_id(thread_id) {
        Some(turn_id) => SendStep::Steer { turn_id },
        None => SendStep::Start,
    }
}

/// What follows from the reply to `turn/steer`.
#[derive(Debug, PartialEq)]
pub enum SteerStep {
    Done(CodexSendReceipt),
    /// The turn was over: the input starts one.
    Start,
    Failed(CodexAppServerError),
}

pub enum SteerView {
    Done(ReceiptView),
    Start,
    Failed(ErrorView),
}

impl View for SteerStep {
    type V = SteerView;

    open spec fn view(&self) -> SteerView {
        match self {
            SteerStep::Done(receipt) => SteerView::Done(receipt@),
            SteerStep::Start => SteerView::Start,
            SteerStep::Failed(error) => SteerView::Failed(error@),
        }
    }
}

/// What follows from the reply to `turn/steer`. An error that is a refusal counts as one even
/// where it also tells of a turn that is over.
pub open spec fn steered(reply: Result<Tree, ErrorView>) -> SteerView {
    match reply {
        Ok(response) => match response.str_at("turnId"@) {
            Some(turn_id) => SteerView::Done(ReceiptView { turn_id, steered: true }),
            None => SteerView::Failed(omitted("turn/steer omitted turnId"@)),
        },
        Err(error) => if error.is_active_turn_not_steerable() {
            SteerView::Failed(ErrorView::ActiveTurnNotSteerable)
        } else if error.is_turn_race() {
            SteerView::Start
        } else {
            SteerView::Failed(error)
        },
    }
}

/// What follows from the reply to `turn/steer`.
pub fn steer_step(reply: Result<Json, CodexAppServerError>) -> (r: SteerStep)
    ensures
        r@ == steered(outcome(reply)),
{
    match reply {
        Ok(response) => match response.str_at("turnId") {
            Some(turn_id) => SteerStep::Done(CodexSendReceipt { turn_id: turn_id.to_owned(), steered: true }),
            None => SteerStep::Failed(omits("turn/steer omitted turnId")),
        },
        Err(error) => {
            if error.is_active_turn_not_steerable() {
                SteerStep::Failed(CodexAppServerError::ActiveTurnNotSteerable)
            } else if error.is_turn_race() {
                SteerStep::Start
            } else {
                SteerStep::Failed(error)
            }
        },
    }
}

/// The turn that the reply to `turn/start` names.
pub open spec fn started_turn(response: Tree) -> Result<Seq<char>, ErrorView> {
    match str_in(response.get_in("turn"@, "id"@)) {
        Some(turn_id) => Ok(turn_id),
        None => Err(omitted("turn/start omitted turn.id"@)),
    }
}

/// Takes the turn that the reply to `turn/start` names, which now runs in the thread.
pub fn turn_started(snapshot: &mut CodexAppServerSnapshot, thread_id: &str, response: &Json) -> (r: Result<
    CodexSendReceipt,
    CodexAppServerError,
>)
    ensures
        match started_turn(response@) {
            Ok(turn_id) => {
                &&& r matches Ok(receipt)
                &&& receipt@ == (ReceiptView { turn_id, steered: false })
                &&& final(snapshot)@ == old(snapshot)@.with_runtime(thread_id@, Some(turn_id), "active"@)
            },
            Err(error) => {
                &&& r matches Err(e)
                &&& e@ == error
                &&& final(snapshot)@ == old(snapshot)@
            },
        },
{
    let turn_id = match response.get_in("turn", "id") {
        Some(turn) => match turn.as_str() {
            Some(turn_id) => turn_id.to_owned(),
            None => return Err(omits("turn/start omitted turn.id")),
        },
        None => return Err(omits("turn/start omitted turn.id")),
    };
    snapshot.set_runtime(thread_id, Some(turn_id.clone()), "active".to_owned());
    Ok(CodexSendReceipt { turn_id, steered: false })
}

/// An input that comes too late for the turn it was meant for starts a turn of its own, and nobody
/// is told of it; a turn that takes no input is told as one.
pub proof fn a_race_is_not_an_error(error: ErrorView)
    ensures
        error.is_turn_race() && !error.is_active_turn_not_steerable() ==> steered(Err(error)) is Start,
        error.is_active_turn_not_steerable() ==> steered(Err(error)) == SteerView::Failed(
            ErrorView::ActiveTurnNotSteerable,
        ),
{
}

/// A connection is opened by the reply to the frame with the number zero, by what it holds as its result;
/// no other frame opens it.
pub proof fn a_connection_is_opened_by_its_reply(envelope: Tree, result: Tree, other: i64)
    ensures
        envelope.get("id"@) == Some(Tree::Int(0)) && envelope.get("error"@) is None && envelope.get("result"@) == Some(
            result,
        ) ==> opening_reply(envelope) == Ok::<Option<Tree>, ErrorView>(Some(result)),
        envelope.get("id"@) == Some(Tree::Int(0)) && envelope.get("error"@) is Some ==> (opening_reply(
            envelope,
        ) matches Err(ErrorView::Rpc { .. })),
        envelope.get("id"@) == Some(Tree::Int(0)) && envelope.get("error"@) is None && envelope.get("result"@) is None
            ==> opening_reply(envelope) is Err,
        envelope.get("id"@) == Some(Tree::Int(other)) && other != 0 ==> opening_reply(envelope) == Ok::<
            Option<Tree>,
            ErrorView,
        >(None),
        envelope.get("id"@) is None ==> opening_reply(envelope) == Ok::<Option<Tree>, ErrorView>(None),
{
}

/// The app-server is known by the user agent and the home that it names, and must name both.
pub proof fn the_app_server_names_itself(result: Tree, user_agent: Seq<char>, codex_home: Seq<char>)
    ensures
        identity(result) == Ok::<(Seq<char>, Seq<char>), ErrorView>((user_agent, codex_home)) <==> result.get(
            "userAgent"@,
        ) == Some(Tree::Str(user_agent)) && result.get("codexHome"@) == Some(Tree::Str(codex_home)),
        !(result.get("userAgent"@) matches Some(Tree::Str(_))) ==> identity(result) == Err::<
            (Seq<char>, Seq<char>),
            ErrorView,
        >(ErrorView::InvalidResponse("initialize omitted userAgent"@)),
        result.get("userAgent"@) == Some(Tree::Str(user_agent)) && !(result.get("codexHome"@) matches Some(Tree::Str(_)))
            ==> identity(result) == Err::<(Seq<char>, Seq<char>), ErrorView>(
            ErrorView::InvalidResponse("initialize omitted codexHome"@),
        ),
{
}

/// A page has the threads that the reply lists, all of them in their order, and goes on where the reply
/// says.
pub proof fn a_page_has_what_the_reply_lists(response: Tree, threads: Seq<Tree>, next: Seq<char>)
    ensures
        response.get("data"@) == Some(Tree::Array(threads)) ==> {
            &&& page_in(response) matches Ok(page) && page.threads == threads
            &&& response.get("nextCursor"@) == Some(Tree::Str(next)) ==> (page_in(response) matches Ok(page)
                && page.next_cursor == Some(next))
            &&& !(response.get("nextCursor"@) matches Some(Tree::Str(_))) ==> (page_in(response) matches Ok(page)
                && page.next_cursor is None)
        },
        !(response.get("data"@) matches Some(Tree::Array(_))) ==> page_in(response) == Err::<PageView, ErrorView>(
            ErrorView::InvalidResponse("thread/list omitted data"@),
        ),
{
}

/// The threads that are loaded are those whose ids the reply lists.
pub proof fn the_loaded_threads_are_those_listed(response: Tree, items: Seq<Tree>, id: Seq<char>)
    ensures
        response.get("data"@) == Some(Tree::Array(items)) ==> (loaded_in(response) matches Ok(ids) && (ids.contains(id)
            <==> items.contains(Tree::Str(id)))),
        !(response.get("data"@) matches Some(Tree::Array(_))) ==> loaded_in(response) == Err::<
            Seq<Seq<char>>,
            ErrorView,
        >(ErrorView::InvalidResponse("thread/loaded/list omitted data"@)),
{
    lemma_strings(items, id);
}

proof fn lemma_strings(items: Seq<Tree>, id: Seq<char>)
    ensures
        strings_in(items).contains(id) <==> items.contains(Tree::Str(id)),
    decreases items.len(),
{
    if items.len() > 0 {
        let front = items.drop_last();
        let last = items.last();
        lemma_strings(front, id);
        assert(items =~= front.push(last));
        crate::json::the_strings_of_a_list_keep_their_order(front, last);
        let ids = strings_in(front);
        if ids.contains(id) {
            let k = choose|k: int| 0 <= k < ids.len() && ids[k] == id;
            assert(strings_in(items)[k] == id);
            let j = choose|j: int| 0 <= j < front.len() && front[j] == Tree::Str(id);
            assert(items[j] == Tree::Str(id));
        } else if last == Tree::Str(id) {
            assert(items[items.len() - 1] == Tree::Str(id));
            assert(strings_in(items)[ids.len() as int] == id);
        } else {
            assert forall|j: int| 0 <= j < items.len() implies items[j] != Tree::Str(id) by {
                if j < front.len() {
                    assert(front[j] == items[j]);
                }
            }
            assert forall|k: int| 0 <= k < strings_in(items).len() implies strings_in(items)[k] != id by {
                if k < ids.len() {
                    assert(ids[k] == strings_in(items)[k]);
                }
            }
        }
    }
}

/// A call for a thread gives the thread that the reply holds, or says by its name that there was none.
pub proof fn a_call_gives_the_thread_it_was_for(method: Seq<char>, response: Tree, thread: Tree)
    ensures
        thread_in(method, response) == Ok::<Tree, ErrorView>(thread) <==> response.get("thread"@) == Some(thread),
        response.get("thread"@) is None ==> thread_in(method, response) == Err::<Tree, ErrorView>(
            ErrorView::InvalidResponse(method + " omitted thread"@),
        ),
{
}

/// An input that a turn took is in the turn that the reply names; one that started a turn is in the turn
/// that the reply holds. A reply that names none is an error, and so is any error that tells neither of a
/// turn that is over nor of one that takes no input.
pub proof fn an_input_is_in_the_turn_that_the_reply_names(response: Tree, turn: Tree, turn_id: Seq<char>, error: ErrorView)
    ensures
        response.get("turnId"@) == Some(Tree::Str(turn_id)) ==> steered(Ok(response)) == SteerView::Done(
            ReceiptView { turn_id, steered: true },
        ),
        !(response.get("turnId"@) matches Some(Tree::Str(_))) ==> steered(Ok(response)) == SteerView::Failed(
            ErrorView::InvalidResponse("turn/steer omitted turnId"@),
        ),
        !error.is_turn_race() && !error.is_active_turn_not_steerable() ==> steered(Err(error)) == SteerView::Failed(error),
        response.get("turn"@) == Some(turn) && turn.get("id"@) == Some(Tree::Str(turn_id)) ==> started_turn(response)
            == Ok::<Seq<char>, ErrorView>(turn_id),
        response.get("turn"@) is None ==> started_turn(response) == Err::<Seq<char>, ErrorView>(
            ErrorView::InvalidResponse("turn/start omitted turn.id"@),
        ),
        response.get("turn"@) == Some(turn) && !(turn.get("id"@) matches Some(Tree::Str(_))) ==> started_turn(response)
            == Err::<Seq<char>, ErrorView>(ErrorView::InvalidResponse("turn/start omitted turn.id"@)),
{
}

} // verus!
