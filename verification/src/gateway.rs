//! The connection to the Codex app-server: what is sent, what comes back, and what is then known.
use vstd::prelude::*;

use crate::json::{opt_tree, str_in, trees, Json, Tree};
use crate::protocol::{CodexAppServerSnapshot, CodexThreadRuntime, RequestView, RuntimeView, SnapshotView};
use crate::table::lookup;
use crate::text::{clone_opt, equals, opt_string, same, to_owned};
use crate::wire::{key_of, request_key};

verus! {

/// How long a call waits for its reply, in seconds.
pub const RPC_TIMEOUT_SECS: u64 = 30;

/// How long the gateway waits before it connects again, in seconds.
pub const RECONNECT_DELAY_SECS: u64 = 2;

/// How often the gateway tries to reach an app-server that it has launched.
pub const LAUNCH_ATTEMPTS: usize = 50;

/// How long it waits after each of these tries that fails, in milliseconds.
pub const LAUNCH_RETRY_MILLIS: u64 = 100;

/// How many threads one page of the full listing has.
pub const THREAD_LIST_LIMIT: u32 = 100;

/// What is done to reach an app-server that has been launched.
#[derive(Debug, PartialEq, Eq)]
pub enum LaunchStep {
    /// It is tried once more, and where that fails, this time is waited, in milliseconds.
    Try { wait_millis: u64 },
    /// It is not tried any more.
    GiveUp,
}

/// What is done to reach an app-server that has been launched, once so many tries have failed.
pub fn launch_step(failed: usize) -> (r: LaunchStep)
    ensures
        r == if failed < LAUNCH_ATTEMPTS {
            LaunchStep::Try { wait_millis: LAUNCH_RETRY_MILLIS }
        } else {
            LaunchStep::GiveUp
        },
{
    if failed < LAUNCH_ATTEMPTS {
        LaunchStep::Try { wait_millis: LAUNCH_RETRY_MILLIS }
    } else {
        LaunchStep::GiveUp
    }
}

/// Where the app-server is found.
#[derive(Debug, PartialEq, Eq)]
pub struct CodexAppServerConfig {
    pub codex_home: String,
    pub codex_binary: String,
}

impl Clone for CodexAppServerConfig {
    fn clone(&self) -> (r: CodexAppServerConfig)
        ensures
            r.codex_home@ == self.codex_home@,
            r.codex_binary@ == self.codex_binary@,
    {
        CodexAppServerConfig { codex_home: self.codex_home.clone(), codex_binary: self.codex_binary.clone() }
    }
}

impl CodexAppServerConfig {
    /// The program `codex`, and the home that `CODEX_HOME` and `HOME` give.
    pub fn from_environment(codex_home: Option<String>, home: Option<String>) -> (r: CodexAppServerConfig)
        ensures
            r.codex_home@ == crate::paths::codex_home(opt_string(codex_home), opt_string(home)),
            r.codex_binary@ == "codex"@,
    {
        CodexAppServerConfig {
            codex_home: crate::paths::default_codex_home(codex_home, home),
            codex_binary: "codex".to_owned(),
        }
    }
}

/// The name of a thread's status.
pub open spec fn status_name(status: Option<Tree>) -> Seq<char> {
    match status {
        Some(status) => match status.str_at("type"@) {
            Some(name) => name,
            None => "unknown"@,
        },
        None => "unknown"@,
    }
}

pub fn thread_status_name(status: Option<&Json>) -> (r: String)
    ensures
        r@ == status_name(opt_tree(status)),
{
    match status {
        Some(status) => match status.str_at("type") {
            Some(name) => name.to_owned(),
            None => "unknown".to_owned(),
        },
        None => "unknown".to_owned(),
    }
}

impl SnapshotView {
    pub open spec fn with_thread(self, id: Seq<char>, thread: Tree) -> SnapshotView {
        SnapshotView { threads: self.threads.insert(id, thread), ..self }
    }

    pub open spec fn with_runtime(self, id: Seq<char>, active_turn_id: Option<Seq<char>>, status: Seq<char>) -> SnapshotView {
        SnapshotView { runtimes: self.runtimes.insert(id, RuntimeView { active_turn_id, status }), ..self }
    }

    /// The turn that runs in a thread, as far as it is known.
    pub open spec fn active_turn(self, thread_id: Seq<char>) -> Option<Seq<char>> {
        match lookup(self.runtimes, thread_id) {
            Some(runtime) => runtime.active_turn_id,
            None => None,
        }
    }

    /// What is known after a notification.
    pub open spec fn notified(self, method: Seq<char>, params: Tree) -> SnapshotView {
        let thread_id = params.str_at("threadId"@);
        if method == "thread/started"@ {
            match params.get("thread"@) {
                Some(thread) => match thread.str_at("id"@) {
                    Some(id) => {
                        let known = self.with_thread(id, thread);
                        if self.runtimes.contains_key(id) {
                            known
                        } else {
                            known.with_runtime(id, None, status_name(thread.get("status"@)))
                        }
                    },
                    None => self,
                },
                None => self,
            }
        } else if method == "thread/status/changed"@ {
            match thread_id {
                Some(id) => self.with_runtime(id, self.active_turn(id), status_name(params.get("status"@))),
                None => self,
            }
        } else if method == "turn/started"@ {
            match (thread_id, str_in(params.get_in("turn"@, "id"@))) {
                (Some(id), Some(turn_id)) => self.with_runtime(id, Some(turn_id), "active"@),
                _ => self,
            }
        } else if method == "turn/completed"@ {
            match thread_id {
                Some(id) => self.with_runtime(id, None, "idle"@),
                None => self,
            }
        } else if method == "serverRequest/resolved"@ {
            match params.get("requestId"@) {
                Some(request_id) => self.without_request(request_id),
                None => self,
            }
        } else {
            self
        }
    }

    /// Without a request of the app-server, which has been answered.
    pub open spec fn without_request(self, request_id: Tree) -> SnapshotView {
        SnapshotView { pending_requests: self.pending_requests.remove(key_of(request_id)), ..self }
    }

    pub open spec fn with_request(self, request: RequestView) -> SnapshotView {
        SnapshotView {
            pending_requests: self.pending_requests.insert(key_of(request.request_id), request),
            ..self
        }
    }

    /// What is known once a thread has been read.
    pub open spec fn recorded(self, thread: Tree) -> SnapshotView {
        match thread.str_at("id"@) {
            Some(id) => {
                let status = status_name(thread.get("status"@));
                let turn = if status == "active"@ {
                    match reported_turn(thread) {
                        Some(turn_id) => Some(turn_id),
                        None => self.active_turn(id),
                    }
                } else {
                    None
                };
                self.with_thread(id, thread).with_runtime(id, turn, status)
            },
            None => self,
        }
    }

    pub open spec fn connected_to(self, codex_home: Seq<char>, user_agent: Seq<char>) -> SnapshotView {
        SnapshotView {
            connected: true,
            codex_home: Some(codex_home),
            user_agent: Some(user_agent),
            ..self
        }
    }

    /// What remains known without a connection: no thread's activity.
    pub open spec fn disconnected(self) -> SnapshotView {
        SnapshotView { connected: false, runtimes: Map::empty(), ..self }
    }
}

/// The last of the turns that is in progress.
pub open spec fn last_in_progress(turns: Seq<Tree>) -> Option<Tree>
    decreases turns.len(),
{
    if turns.len() == 0 {
        None
    } else if turns.last().str_at("status"@) == Some("inProgress"@) {
        Some(turns.last())
    } else {
        last_in_progress(turns.drop_last())
    }
}

/// The turn that a thread reports as running: the last one in progress.
pub open spec fn reported_turn(thread: Tree) -> Option<Seq<char>> {
    match thread.get("turns"@) {
        Some(Tree::Array(turns)) => match last_in_progress(turns) {
            Some(turn) => turn.str_at("id"@),
            None => None,
        },
        _ => None,
    }
}

fn find_reported_turn(thread: &Json) -> (r: Option<String>)
    ensures
        opt_string(r) == reported_turn(thread@),
{
    let turns = match thread.get("turns") {
        Some(turns) => match turns.as_array() {
            Some(turns) => turns,
            None => return None,
        },
        None => return None,
    };
    let ghost all = trees(turns@);
    let mut i: usize = turns.len();
    proof {
        assert(all.take(i as int) =~= all);
    }
    while i > 0
        invariant
            i <= turns@.len(),
            all == trees(turns@),
            thread@.get("turns"@) == Some(Tree::Array(all)),
            last_in_progress(all) == last_in_progress(all.take(i as int)),
        decreases i,
    {
        proof {
            assert(all.take(i as int).drop_last() =~= all.take(i - 1));
            assert(all.take(i as int).last() == turns@[i - 1]@);
        }
        i = i - 1;
        if equals(turns[i].str_at("status"), "inProgress") {
            return to_owned(turns[i].str_at("id"));
        }
    }
    None
}

impl CodexAppServerSnapshot {
    /// The turn that runs in a thread, as far as it is known.
    pub fn active_turn_id(&self, thread_id: &str) -> (r: Option<String>)
        ensures
            opt_string(r) == self@.active_turn(thread_id@),
    {
        match self.runtimes.get(thread_id) {
            Some(runtime) => clone_opt(&runtime.active_turn_id),
            None => None,
        }
    }

    pub(crate) fn set_runtime(&mut self, thread_id: &str, active_turn_id: Option<String>, status: String)
        ensures
            final(self)@ == old(self)@.with_runtime(thread_id@, opt_string(active_turn_id), status@),
    {
        self.runtimes.insert(thread_id, CodexThreadRuntime { active_turn_id, status });
    }

    /// Takes a notification in.
    pub fn apply_notification(&mut self, method: &str, params: &Json)
        ensures
            final(self)@ == old(self)@.notified(method@, params@),
    {
        if same(method, "thread/started") {
            if let Some(thread) = params.get("thread") {
                if let Some(id) = thread.str_at("id") {
                    self.threads.insert(id, thread.clone());
                    if self.runtimes.get(id).is_none() {
                        self.set_runtime(id, None, thread_status_name(thread.get("status")));
                    }
                }
            }
        } else if same(method, "thread/status/changed") {
            if let Some(id) = params.str_at("threadId") {
                let turn = self.active_turn_id(id);
                self.set_runtime(id, turn, thread_status_name(params.get("status")));
            }
        } else if same(method, "turn/started") {
            if let Some(id) = params.str_at("threadId") {
                if let Some(turn) = params.get_in("turn", "id") {
                    if let Some(turn_id) = turn.as_str() {
                        self.set_runtime(id, Some(turn_id.to_owned()), "active".to_owned());
                    }
                }
            }
        } else if same(method, "turn/completed") {
            if let Some(id) = params.str_at("threadId") {
                self.set_runtime(id, None, "idle".to_owned());
            }
        } else if same(method, "serverRequest/resolved") {
            if let Some(request_id) = params.get("requestId") {
                self.forget_request(request_id);
            }
        }
    }

    /// Drops a request of the app-server, which has been answered.
    pub fn forget_request(&mut self, request_id: &Json)
        ensures
            final(self)@ == old(self)@.without_request(request_id@),
    {
        let key = request_key(request_id);
        let _ = self.pending_requests.remove(key.as_str());
    }

    /// Takes a thread in that has been read.
    pub fn record_thread_snapshot(&mut self, thread: &Json)
        ensures
            final(self)@ == old(self)@.recorded(thread@),
    {
        let id = match thread.str_at("id") {
            Some(id) => id,
            None => return ,
        };
        let status = thread_status_name(thread.get("status"));
        let turn = if same(status.as_str(), "active") {
            match find_reported_turn(thread) {
                Some(turn_id) => Some(turn_id),
                None => self.active_turn_id(id),
            }
        } else {
            None
        };
        self.threads.insert(id, thread.clone());
        self.set_runtime(id, turn, status);
    }

    pub fn connect(&mut self, codex_home: String, user_agent: String)
        ensures
            final(self)@ == old(self)@.connected_to(codex_home@, user_agent@),
    {
        self.connected = true;
        self.codex_home = Some(codex_home);
        self.user_agent = Some(user_agent);
    }

    pub fn disconnect(&mut self)
        ensures
            final(self)@ == old(self)@.disconnected(),
    {
        self.connected = false;
        self.runtimes.clear();
    }
}

proof fn lemma_methods_differ()
    ensures
        "thread/started"@ != "turn/started"@,
        "thread/status/changed"@ != "turn/started"@,
        "thread/started"@ != "turn/completed"@,
        "thread/status/changed"@ != "turn/completed"@,
        "turn/started"@ != "turn/completed"@,
        "thread/started"@ != "serverRequest/resolved"@,
        "thread/status/changed"@ != "serverRequest/resolved"@,
        "turn/started"@ != "serverRequest/resolved"@,
        "turn/completed"@ != "serverRequest/resolved"@,
{
    reveal_strlit("thread/started");
    reveal_strlit("thread/status/changed");
    reveal_strlit("turn/started");
    reveal_strlit("turn/completed");
    reveal_strlit("serverRequest/resolved");
    assert("thread/started"@.len() != "turn/started"@.len());
    assert("thread/status/changed"@.len() != "turn/started"@.len());
    assert("thread/started"@[1] != "turn/completed"@[1]);
    assert("thread/status/changed"@.len() != "turn/completed"@.len());
    assert("turn/started"@.len() != "turn/completed"@.len());
    assert("thread/started"@.len() != "serverRequest/resolved"@.len());
    assert("thread/status/changed"@.len() != "serverRequest/resolved"@.len());
    assert("turn/started"@.len() != "serverRequest/resolved"@.len());
    assert("turn/completed"@.len() != "serverRequest/resolved"@.len());
}

/// A turn runs in its thread from the notification that it has started until the one that a turn of
/// the thread has been completed; what happens in other threads makes no difference to it.
pub proof fn a_turn_runs_until_it_is_completed(snapshot: SnapshotView, started: Tree, completed: Tree, other: Seq<char>)
    requires
        started.str_at("threadId"@) is Some,
        str_in(started.get_in("turn"@, "id"@)) is Some,
        completed.str_at("threadId"@) == started.str_at("threadId"@),
    ensures
        ({
            let id = started.str_at("threadId"@)->0;
            let running = snapshot.notified("turn/started"@, started);
            let over = running.notified("turn/completed"@, completed);
            &&& running.active_turn(id) == str_in(started.get_in("turn"@, "id"@))
            &&& over.active_turn(id) is None
            &&& other != id ==> over.active_turn(other) == snapshot.active_turn(other)
        }),
{
    lemma_methods_differ();
}

/// A request of the app-server that has come is known until it is said to be resolved, and then is
/// not; other requests stay.
pub proof fn a_request_is_known_until_it_is_resolved(snapshot: SnapshotView, request: RequestView, resolved: Tree, other: Seq<char>)
    requires
        resolved.get("requestId"@) == Some(request.request_id),
    ensures
        ({
            let key = key_of(request.request_id);
            let asked = snapshot.with_request(request);
            let answered = asked.notified("serverRequest/resolved"@, resolved);
            &&& lookup(asked.pending_requests, key) == Some(request)
            &&& lookup(answered.pending_requests, key) is None
            &&& other != key ==> lookup(answered.pending_requests, other) == lookup(
                snapshot.pending_requests,
                other,
            )
        }),
{
    lemma_methods_differ();
}

/// Without a connection no turn is known to run; the threads and the requests stay known.
pub proof fn nothing_runs_without_a_connection(snapshot: SnapshotView, thread_id: Seq<char>)
    ensures
        !snapshot.disconnected().connected,
        snapshot.disconnected().active_turn(thread_id) is None,
        snapshot.disconnected().threads == snapshot.threads,
        snapshot.disconnected().pending_requests == snapshot.pending_requests,
        snapshot.disconnected().codex_home == snapshot.codex_home,
{
}

/// A thread that is read while no turn runs in it has no active turn then.
pub proof fn an_idle_thread_has_no_active_turn(snapshot: SnapshotView, thread: Tree)
    requires
        thread.str_at("id"@) is Some,
        status_name(thread.get("status"@)) != "active"@,
    ensures
        snapshot.recorded(thread).active_turn(thread.str_at("id"@)->0) is None,
        lookup(snapshot.recorded(thread).threads, thread.str_at("id"@)->0) == Some(thread),
{
}

proof fn lemma_all_methods()
    ensures
        "thread/started"@ != "thread/status/changed"@,
        "thread/started"@ != "turn/started"@,
        "thread/started"@ != "turn/completed"@,
        "thread/started"@ != "serverRequest/resolved"@,
        "thread/status/changed"@ != "turn/started"@,
        "thread/status/changed"@ != "turn/completed"@,
        "thread/status/changed"@ != "serverRequest/resolved"@,
        "turn/started"@ != "turn/completed"@,
        "turn/started"@ != "serverRequest/resolved"@,
        "turn/completed"@ != "serverRequest/resolved"@,
{
    reveal_strlit("thread/started");
    reveal_strlit("thread/status/changed");
    reveal_strlit("turn/started");
    reveal_strlit("turn/completed");
    reveal_strlit("serverRequest/resolved");
    assert("thread/started"@.len() != "thread/status/changed"@.len());
    assert("thread/started"@.len() != "turn/started"@.len());
    assert("thread/started"@[1] != "turn/completed"@[1]);
    assert("thread/started"@.len() != "serverRequest/resolved"@.len());
    assert("thread/status/changed"@.len() != "turn/started"@.len());
    assert("thread/status/changed"@.len() != "turn/completed"@.len());
    assert("thread/status/changed"@.len() != "serverRequest/resolved"@.len());
    assert("turn/started"@.len() != "turn/completed"@.len());
    assert("turn/started"@.len() != "serverRequest/resolved"@.len());
    assert("turn/completed"@.len() != "serverRequest/resolved"@.len());
}

/// A status of a thread is the text that it has as its type, and unknown where it has none.
pub proof fn a_status_is_its_type(status: Tree, name: Seq<char>)
    ensures
        status.get("type"@) == Some(Tree::Str(name)) ==> status_name(Some(status)) == name,
        !(status.get("type"@) matches Some(Tree::Str(_))) ==> status_name(Some(status)) == "unknown"@,
        status_name(None) == "unknown"@,
{
}

/// A notification about one thread makes no difference to what is known of any other.
pub proof fn other_threads_stay_as_they_are(snapshot: SnapshotView, method: Seq<char>, params: Tree, other: Seq<char>)
    requires
        params.get("threadId"@) != Some(Tree::Str(other)),
        params.get_in("thread"@, "id"@) != Some(Tree::Str(other)),
    ensures
        lookup(snapshot.notified(method, params).runtimes, other) == lookup(snapshot.runtimes, other),
        lookup(snapshot.notified(method, params).threads, other) == lookup(snapshot.threads, other),
        snapshot.notified(method, params).connected == snapshot.connected,
        snapshot.notified(method, params).codex_home == snapshot.codex_home,
        snapshot.notified(method, params).user_agent == snapshot.user_agent,
{
}

/// What a notification says of a thread is what is known of it then. A turn that starts is the one
/// that runs, and the thread is active; with the end of a turn none runs, and the thread is idle; a
/// change of the status changes no turn.
pub proof fn what_is_known_of_a_thread_is_what_was_said_last(
    snapshot: SnapshotView,
    params: Tree,
    id: Seq<char>,
    turn_id: Seq<char>,
    status: Seq<char>,
)
    requires
        params.get("threadId"@) == Some(Tree::Str(id)),
    ensures
        params.get_in("turn"@, "id"@) == Some(Tree::Str(turn_id)) ==> lookup(
            snapshot.notified("turn/started"@, params).runtimes,
            id,
        ) == Some(RuntimeView { active_turn_id: Some(turn_id), status: "active"@ }),
        !(params.get_in("turn"@, "id"@) matches Some(Tree::Str(_))) ==> snapshot.notified("turn/started"@, params)
            == snapshot,
        lookup(snapshot.notified("turn/completed"@, params).runtimes, id) == Some(
            RuntimeView { active_turn_id: None, status: "idle"@ },
        ),
        params.get_in("status"@, "type"@) == Some(Tree::Str(status)) ==> lookup(
            snapshot.notified("thread/status/changed"@, params).runtimes,
            id,
        ) == Some(RuntimeView { active_turn_id: snapshot.active_turn(id), status }),
        !(params.get_in("status"@, "type"@) matches Some(Tree::Str(_))) ==> lookup(
            snapshot.notified("thread/status/changed"@, params).runtimes,
            id,
        ) == Some(RuntimeView { active_turn_id: snapshot.active_turn(id), status: "unknown"@ }),
        snapshot.notified("turn/started"@, params).threads == snapshot.threads,
        snapshot.notified("turn/completed"@, params).threads == snapshot.threads,
        snapshot.notified("thread/status/changed"@, params).threads == snapshot.threads,
        snapshot.notified("turn/started"@, params).pending_requests == snapshot.pending_requests,
        snapshot.notified("turn/completed"@, params).pending_requests == snapshot.pending_requests,
        snapshot.notified("thread/status/changed"@, params).pending_requests == snapshot.pending_requests,
{
    lemma_all_methods();
}

/// A thread that has started is known as it came. Where nothing was known of its activity, no turn
/// runs in it and its status is the one it came with; else that stays.
pub proof fn a_started_thread_is_known(snapshot: SnapshotView, params: Tree, thread: Tree, id: Seq<char>)
    requires
        params.get("thread"@) == Some(thread),
        thread.get("id"@) == Some(Tree::Str(id)),
    ensures
        ({
            let after = snapshot.notified("thread/started"@, params);
            &&& lookup(after.threads, id) == Some(thread)
            &&& snapshot.runtimes.contains_key(id) ==> after.runtimes == snapshot.runtimes
            &&& !snapshot.runtimes.contains_key(id) ==> {
                &&& after.runtimes.contains_key(id)
                &&& after.runtimes[id].active_turn_id is None
                &&& thread.get_in("status"@, "type"@) matches Some(Tree::Str(status)) ==> after.runtimes[id].status == status
                &&& !(thread.get_in("status"@, "type"@) matches Some(Tree::Str(_))) ==> after.runtimes[id].status
                    == "unknown"@
            }
            &&& after.pending_requests == snapshot.pending_requests
        }),
{
}

/// A notification of any other kind, or one that does not say what it is about, changes nothing.
pub proof fn other_notifications_change_nothing(snapshot: SnapshotView, method: Seq<char>, params: Tree)
    requires
        method == "thread/started"@ ==> !(params.get_in("thread"@, "id"@) matches Some(Tree::Str(_))),
        method == "thread/status/changed"@ || method == "turn/started"@ || method == "turn/completed"@ ==> !(params.get(
            "threadId"@,
        ) matches Some(Tree::Str(_))),
        method == "serverRequest/resolved"@ ==> params.get("requestId"@) is None,
    ensures
        snapshot.notified(method, params) == snapshot,
{
}

proof fn lemma_last_in_progress(turns: Seq<Tree>, at: int)
    requires
        0 <= at < turns.len(),
        turns[at].str_at("status"@) == Some("inProgress"@),
        forall|i: int| at < i < turns.len() ==> (#[trigger] turns[i]).str_at("status"@) != Some("inProgress"@),
    ensures
        last_in_progress(turns) == Some(turns[at]),
    decreases turns.len(),
{
    if at < turns.len() - 1 {
        assert(turns[turns.len() - 1].str_at("status"@) != Some("inProgress"@));
        lemma_last_in_progress(turns.drop_last(), at);
    }
}

proof fn lemma_none_in_progress(turns: Seq<Tree>)
    requires
        forall|i: int| 0 <= i < turns.len() ==> (#[trigger] turns[i]).str_at("status"@) != Some("inProgress"@),
    ensures
        last_in_progress(turns) is None,
    decreases turns.len(),
{
    if turns.len() > 0 {
        assert(turns[turns.len() - 1].str_at("status"@) != Some("inProgress"@));
        lemma_none_in_progress(turns.drop_last());
    }
}

/// A thread that is read while it is active is known with the last of its turns that is in progress,
/// which is the one that runs, whatever ran before.
pub proof fn the_last_turn_in_progress_runs(snapshot: SnapshotView, thread: Tree, id: Seq<char>, turns: Seq<Tree>, at: int)
    requires
        thread.get("id"@) == Some(Tree::Str(id)),
        thread.get_in("status"@, "type"@) == Some(Tree::Str("active"@)),
        thread.get("turns"@) == Some(Tree::Array(turns)),
        0 <= at < turns.len(),
        turns[at].get("status"@) == Some(Tree::Str("inProgress"@)),
        turns[at].get("id"@) is Some,
        turns[at].get("id"@)->0 is Str,
        forall|i: int| at < i < turns.len() ==> (#[trigger] turns[i]).get("status"@) != Some(Tree::Str("inProgress"@)),
    ensures
        lookup(snapshot.recorded(thread).runtimes, id) == Some(
            RuntimeView { active_turn_id: Some(turns[at].get("id"@)->0->Str_0), status: "active"@ },
        ),
        lookup(snapshot.recorded(thread).threads, id) == Some(thread),
{
    assert forall|i: int| at < i < turns.len() implies (#[trigger] turns[i]).str_at("status"@) != Some("inProgress"@) by {
        assert(turns[i].get("status"@) != Some(Tree::Str("inProgress"@)));
    }
    lemma_last_in_progress(turns, at);
}

/// A thread that is read is known as it was read, with its status, and nothing else changes. Where it
/// is not active, no turn runs in it; where it is and names none in progress, the turn that ran goes on.
pub proof fn a_thread_that_is_read_is_known(
    snapshot: SnapshotView,
    thread: Tree,
    id: Seq<char>,
    turns: Seq<Tree>,
    other: Seq<char>,
)
    requires
        thread.get("id"@) == Some(Tree::Str(id)),
        thread.get("turns"@) matches Some(Tree::Array(listed)) ==> turns == listed,
    ensures
        ({
            let after = snapshot.recorded(thread);
            &&& after.threads == snapshot.threads.insert(id, thread)
            &&& after.pending_requests == snapshot.pending_requests
            &&& after.connected == snapshot.connected
            &&& after.runtimes.contains_key(id)
            &&& other != id ==> lookup(after.runtimes, other) == lookup(snapshot.runtimes, other)
            &&& thread.get_in("status"@, "type"@) matches Some(Tree::Str(status)) ==> after.runtimes[id].status == status
            &&& thread.get_in("status"@, "type"@) != Some(Tree::Str("active"@)) ==> after.runtimes[id].active_turn_id is None
            &&& thread.get_in("status"@, "type"@) == Some(Tree::Str("active"@)) && (forall|i: int|
                0 <= i < turns.len() ==> (#[trigger] turns[i]).get("status"@) != Some(Tree::Str("inProgress"@)))
                ==> after.runtimes[id].active_turn_id == snapshot.active_turn(id)
        }),
{
    reveal_strlit("unknown");
    reveal_strlit("active");
    assert("unknown"@.len() != "active"@.len());
    if forall|i: int| 0 <= i < turns.len() ==> (#[trigger] turns[i]).get("status"@) != Some(Tree::Str("inProgress"@)) {
        assert forall|i: int| 0 <= i < turns.len() implies (#[trigger] turns[i]).str_at("status"@) != Some(
            "inProgress"@,
        ) by {
            assert(turns[i].get("status"@) != Some(Tree::Str("inProgress"@)));
        }
        lemma_none_in_progress(turns);
    }
}

/// Once there is a connection, the home and the name of the server are the ones that it gave, and what
/// was known of threads and requests stays.
pub proof fn a_connection_is_to_the_server_that_answered(snapshot: SnapshotView, codex_home: Seq<char>, user_agent: Seq<char>)
    ensures
        snapshot.connected_to(codex_home, user_agent) == (SnapshotView {
            connected: true,
            codex_home: Some(codex_home),
            user_agent: Some(user_agent),
            threads: snapshot.threads,
            runtimes: snapshot.runtimes,
            pending_requests: snapshot.pending_requests,
        }),
        crate::protocol::blank_snapshot().codex_home is None,
        !crate::protocol::blank_snapshot().connected,
{
}

/// An app-server that has been launched is tried every tenth of a second, for five seconds in all.
pub proof fn a_launched_app_server_has_five_seconds(tries: nat)
    ensures
        tries == LAUNCH_ATTEMPTS ==> tries * LAUNCH_RETRY_MILLIS == 5000,
        LAUNCH_RETRY_MILLIS == 100,
        RPC_TIMEOUT_SECS == 30,
        RECONNECT_DELAY_SECS == 2,
        THREAD_LIST_LIMIT == 100,
{
}

} // verus!
