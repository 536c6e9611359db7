//! The rows that the library keeps, and what happens to them.
use vstd::prelude::*;

use crate::text::{clone_opt, opt_string, same};

verus! {

/// A workspace whose threads are shown as conversations of a user.
#[derive(Debug, PartialEq, Eq)]
pub struct CodexWatchedWorkspaceRow {
    pub id: String,
    pub user_id: String,
    pub root_path: String,
    pub recursive: bool,
    pub enabled: bool,
    pub created_at: i64,
    pub updated_at: i64,
}

pub struct WorkspaceView {
    pub id: Seq<char>,
    pub user_id: Seq<char>,
    pub root_path: Seq<char>,
    pub recursive: bool,
    pub enabled: bool,
    pub created_at: i64,
    pub updated_at: i64,
}

impl View for CodexWatchedWorkspaceRow {
    type V = WorkspaceView;

    open spec fn view(&self) -> WorkspaceView {
        WorkspaceView {
            id: self.id@,
            user_id: self.user_id@,
            root_path: self.root_path@,
            recursive: self.recursive,
            enabled: self.enabled,
            created_at: self.created_at,
            updated_at: self.updated_at,
        }
    }
}

impl Clone for CodexWatchedWorkspaceRow {
    fn clone(&self) -> (r: CodexWatchedWorkspaceRow)
        ensures
            r@ == self@,
    {
        CodexWatchedWorkspaceRow {
            id: self.id.clone(),
            user_id: self.user_id.clone(),
            root_path: self.root_path.clone(),
            recursive: self.recursive,
            enabled: self.enabled,
            created_at: self.created_at,
            updated_at: self.updated_at,
        }
    }
}

/// A thread that a conversation of a user shows.
#[derive(Debug, PartialEq, Eq)]
pub struct CodexThreadBindingRow {
    pub codex_home: String,
    pub thread_id: String,
    pub user_id: String,
    pub conversation_id: String,
    pub cwd: String,
    pub source: String,
    pub live_state: String,
    pub history_cursor: Option<String>,
    pub history_complete: bool,
    pub history_next_created_at: Option<i64>,
    pub created_at: i64,
    pub updated_at: i64,
}

pub struct BindingView {
    pub codex_home: Seq<char>,
    pub thread_id: Seq<char>,
    pub user_id: Seq<char>,
    pub conversation_id: Seq<char>,
    pub cwd: Seq<char>,
    pub source: Seq<char>,
    pub live_state: Seq<char>,
    pub history_cursor: Option<Seq<char>>,
    pub history_complete: bool,
    pub history_next_created_at: Option<i64>,
    pub created_at: i64,
    pub updated_at: i64,
}

impl View for CodexThreadBindingRow {
    type V = BindingView;

    open spec fn view(&self) -> BindingView {
        BindingView {
            codex_home: self.codex_home@,
            thread_id: self.thread_id@,
            user_id: self.user_id@,
            conversation_id: self.conversation_id@,
            cwd: self.cwd@,
            source: self.source@,
            live_state: self.live_state@,
            history_cursor: opt_string(self.history_cursor),
            history_complete: self.history_complete,
            history_next_created_at: self.history_next_created_at,
            created_at: self.created_at,
            updated_at: self.updated_at,
        }
    }
}

impl Clone for CodexThreadBindingRow {
    fn clone(&self) -> (r: CodexThreadBindingRow)
        ensures
            r@ == self@,
    {
        CodexThreadBindingRow {
            codex_home: self.codex_home.clone(),
            thread_id: self.thread_id.clone(),
            user_id: self.user_id.clone(),
            conversation_id: self.conversation_id.clone(),
            cwd: self.cwd.clone(),
            source: self.source.clone(),
            live_state: self.live_state.clone(),
            history_cursor: clone_opt(&self.history_cursor),
            history_complete: self.history_complete,
            history_next_created_at: self.history_next_created_at,
            created_at: self.created_at,
            updated_at: self.updated_at,
        }
    }
}

/// A conversation of a user.
#[derive(Debug, PartialEq, Eq)]
pub struct ConversationRow {
    pub id: String,
    pub user_id: String,
    pub name: String,
    pub conversation_type: String,
    pub extra: String,
    pub model: Option<String>,
    pub status: Option<String>,
    pub source: Option<String>,
    pub channel_chat_id: Option<String>,
    pub pinned: bool,
    pub pinned_at: Option<i64>,
    pub created_at: i64,
    pub updated_at: i64,
}

pub struct ConversationView {
    pub id: Seq<char>,
    pub user_id: Seq<char>,
    pub name: Seq<char>,
    pub conversation_type: Seq<char>,
    pub extra: Seq<char>,
    pub model: Option<Seq<char>>,
    pub status: Option<Seq<char>>,
    pub source: Option<Seq<char>>,
    pub channel_chat_id: Option<Seq<char>>,
    pub pinned: bool,
    pub pinned_at: Option<i64>,
    pub created_at: i64,
    pub updated_at: i64,
}

impl View for ConversationRow {
    type V = ConversationView;

    open spec fn view(&self) -> ConversationView {
        ConversationView {
            id: self.id@,
            user_id: self.user_id@,
            name: self.name@,
            conversation_type: self.conversation_type@,
            extra: self.extra@,
            model: opt_string(self.model),
            status: opt_string(self.status),
            source: opt_string(self.source),
            channel_chat_id: opt_string(self.channel_chat_id),
            pinned: self.pinned,
            pinned_at: self.pinned_at,
            created_at: self.created_at,
            updated_at: self.updated_at,
        }
    }
}

/// What changes in a conversation; what is absent stays.
#[derive(Debug, PartialEq, Eq)]
pub struct ConversationRowUpdate {
    pub name: Option<String>,
    pub extra: Option<String>,
    pub status: Option<String>,
    pub updated_at: Option<i64>,
}

pub struct UpdateView {
    pub name: Option<Seq<char>>,
    pub extra: Option<Seq<char>>,
    pub status: Option<Seq<char>>,
    pub updated_at: Option<i64>,
}

impl View for ConversationRowUpdate {
    type V = UpdateView;

    open spec fn view(&self) -> UpdateView {
        UpdateView {
            name: opt_string(self.name),
            extra: opt_string(self.extra),
            status: opt_string(self.status),
            updated_at: self.updated_at,
        }
    }
}

/// Nothing changes.
pub open spec fn no_update() -> UpdateView {
    UpdateView { name: None, extra: None, status: None, updated_at: None }
}

impl Default for ConversationRowUpdate {
    fn default() -> (r: ConversationRowUpdate)
        ensures
            r@ == no_update(),
    {
        ConversationRowUpdate { name: None, extra: None, status: None, updated_at: None }
    }
}

impl ConversationView {
    /// With an update made.
    pub open spec fn updated(self, update: UpdateView) -> ConversationView {
        ConversationView {
            name: match update.name {
                Some(name) => name,
                None => self.name,
            },
            extra: match update.extra {
                Some(extra) => extra,
                None => self.extra,
            },
            status: match update.status {
                Some(status) => Some(status),
                None => self.status,
            },
            updated_at: match update.updated_at {
                Some(at) => at,
                None => self.updated_at,
            },
            ..self
        }
    }
}

impl ConversationRow {
    /// Makes an update.
    pub fn update(&mut self, update: ConversationRowUpdate)
        ensures
            final(self)@ == old(self)@.updated(update@),
    {
        if let Some(name) = update.name {
            self.name = name;
        }
        if let Some(extra) = update.extra {
            self.extra = extra;
        }
        if let Some(status) = update.status {
            self.status = Some(status);
        }
        if let Some(at) = update.updated_at {
            self.updated_at = at;
        }
    }
}

/// A message of a conversation.
#[derive(Debug, PartialEq, Eq)]
pub struct MessageRow {
    pub id: String,
    pub conversation_id: String,
    pub msg_id: Option<String>,
    pub message_type: String,
    pub content: String,
    pub position: Option<String>,
    pub status: Option<String>,
    pub hidden: bool,
    pub created_at: i64,
}

pub struct MessageView {
    pub id: Seq<char>,
    pub conversation_id: Seq<char>,
    pub msg_id: Option<Seq<char>>,
    pub message_type: Seq<char>,
    pub content: Seq<char>,
    pub position: Option<Seq<char>>,
    pub status: Option<Seq<char>>,
    pub hidden: bool,
    pub created_at: i64,
}

impl View for MessageRow {
    type V = MessageView;

    open spec fn view(&self) -> MessageView {
        MessageView {
            id: self.id@,
            conversation_id: self.conversation_id@,
            msg_id: opt_string(self.msg_id),
            message_type: self.message_type@,
            content: self.content@,
            position: opt_string(self.position),
            status: opt_string(self.status),
            hidden: self.hidden,
            created_at: self.created_at,
        }
    }
}

/// Why an operation on a conversation failed.
#[derive(Debug, PartialEq, Eq)]
pub enum ConversationError {
    Busy { reason: String },
    BadRequest { reason: String },
    ActiveAgentNotFound { conversation_id: String },
    Internal { reason: String },
}

pub enum FailureView {
    Busy(Seq<char>),
    BadRequest(Seq<char>),
    ActiveAgentNotFound(Seq<char>),
    Internal(Seq<char>),
}

impl View for ConversationError {
    type V = FailureView;

    open spec fn view(&self) -> FailureView {
        match self {
            ConversationError::Busy { reason } => FailureView::Busy(reason@),
            ConversationError::BadRequest { reason } => FailureView::BadRequest(reason@),
            ConversationError::ActiveAgentNotFound { conversation_id } => FailureView::ActiveAgentNotFound(
                conversation_id@,
            ),
            ConversationError::Internal { reason } => FailureView::Internal(reason@),
        }
    }
}

impl WorkspaceView {
    /// The row that is kept where `self` is stored over the row with its user and root. The
    /// identity and the age of the row that was there stay.
    pub open spec fn stored_over(self, existing: Option<WorkspaceView>) -> WorkspaceView {
        match existing {
            Some(row) => WorkspaceView {
                recursive: self.recursive,
                enabled: self.enabled,
                updated_at: self.updated_at,
                ..row
            },
            None => self,
        }
    }

    /// The two rows are for the same root of the same user, which is kept once.
    pub open spec fn same_place(self, other: WorkspaceView) -> bool {
        self.user_id == other.user_id && self.root_path == other.root_path
    }
}

/// The row that is kept where `row` is stored over the row with its user and root.
pub fn stored_workspace(existing: Option<CodexWatchedWorkspaceRow>, row: &CodexWatchedWorkspaceRow) -> (r:
    CodexWatchedWorkspaceRow)
    ensures
        r@ == row@.stored_over(
            match existing {
                Some(existing) => Some(existing@),
                None => None,
            },
        ),
{
    match existing {
        Some(mut kept) => {
            kept.recursive = row.recursive;
            kept.enabled = row.enabled;
            kept.updated_at = row.updated_at;
            kept
        },
        None => row.clone(),
    }
}

/// Storing a workspace twice is storing it once, and it stays at its place.
pub proof fn storing_a_workspace_twice_is_storing_it_once(row: WorkspaceView, existing: Option<WorkspaceView>)
    ensures
        row.stored_over(Some(row.stored_over(existing))) == row.stored_over(existing),
        existing matches Some(kept) && row.same_place(kept) ==> row.same_place(row.stored_over(existing)),
        existing is None ==> row.same_place(row.stored_over(existing)),
{
}

/// A workspace that was stored keeps its identity and its age, whatever is stored over it.
pub proof fn a_stored_workspace_keeps_its_identity(row: WorkspaceView, existing: WorkspaceView)
    ensures
        row.stored_over(Some(existing)).id == existing.id,
        row.stored_over(Some(existing)).created_at == existing.created_at,
        row.stored_over(Some(existing)).recursive == row.recursive,
        row.stored_over(Some(existing)).enabled == row.enabled,
{
}

impl BindingView {
    /// The row that is kept where `self` is stored over the row with its user, home and thread.
    /// The conversation, the age and what was read of the history stay.
    pub open spec fn stored_over(self, existing: Option<BindingView>) -> BindingView {
        match existing {
            Some(row) => BindingView {
                cwd: self.cwd,
                source: self.source,
                live_state: self.live_state,
                updated_at: self.updated_at,
                ..row
            },
            None => BindingView {
                history_cursor: None,
                history_complete: false,
                history_next_created_at: None,
                ..self
            },
        }
    }

    /// The two rows are for the same thread of the same user, which is kept once.
    pub open spec fn same_thread(self, other: BindingView) -> bool {
        self.user_id == other.user_id && self.codex_home == other.codex_home && self.thread_id
            == other.thread_id
    }

    pub open spec fn with_live_state(self, live_state: Seq<char>, updated_at: i64) -> BindingView {
        BindingView { live_state, updated_at, ..self }
    }

    pub open spec fn with_history_state(
        self,
        cursor: Option<Seq<char>>,
        complete: bool,
        next_created_at: i64,
        updated_at: i64,
    ) -> BindingView {
        BindingView {
            history_cursor: cursor,
            history_complete: complete,
            history_next_created_at: Some(next_created_at),
            updated_at,
            ..self
        }
    }
}

/// The row that is kept where `row` is stored over the row with its user, home and thread.
pub fn stored_binding(existing: Option<CodexThreadBindingRow>, row: &CodexThreadBindingRow) -> (r:
    CodexThreadBindingRow)
    ensures
        r@ == row@.stored_over(
            match existing {
                Some(existing) => Some(existing@),
                None => None,
            },
        ),
{
    match existing {
        Some(mut kept) => {
            kept.cwd = row.cwd.clone();
            kept.source = row.source.clone();
            kept.live_state = row.live_state.clone();
            kept.updated_at = row.updated_at;
            kept
        },
        None => {
            let mut kept = row.clone();
            kept.history_cursor = None;
            kept.history_complete = false;
            kept.history_next_created_at = None;
            kept
        },
    }
}

/// Storing a binding twice is storing it once, and it stays with its thread.
pub proof fn storing_a_binding_twice_is_storing_it_once(row: BindingView, existing: Option<BindingView>)
    ensures
        row.stored_over(Some(row.stored_over(existing))) == row.stored_over(existing),
        existing matches Some(kept) && row.same_thread(kept) ==> row.same_thread(row.stored_over(existing)),
        existing is None ==> row.same_thread(row.stored_over(existing)),
{
}

/// A thread stays with the conversation that first showed it, and with what was read of its
/// history, whatever is stored over it.
pub proof fn a_stored_binding_keeps_its_conversation(row: BindingView, existing: BindingView)
    ensures
        row.stored_over(Some(existing)).conversation_id == existing.conversation_id,
        row.stored_over(Some(existing)).created_at == existing.created_at,
        row.stored_over(Some(existing)).history_cursor == existing.history_cursor,
        row.stored_over(Some(existing)).history_complete == existing.history_complete,
        row.stored_over(Some(existing)).history_next_created_at == existing.history_next_created_at,
{
}

impl CodexThreadBindingRow {
    pub fn set_live_state(&mut self, live_state: &str, updated_at: i64)
        ensures
            final(self)@ == old(self)@.with_live_state(live_state@, updated_at),
    {
        self.live_state = live_state.to_owned();
        self.updated_at = updated_at;
    }

    /// Takes in how far the history has been read.
    pub fn set_history_state(
        &mut self,
        cursor: Option<String>,
        complete: bool,
        next_created_at: i64,
        updated_at: i64,
    )
        ensures
            final(self)@ == old(self)@.with_history_state(
                opt_string(cursor),
                complete,
                next_created_at,
                updated_at,
            ),
    {
        self.history_cursor = cursor;
        self.history_complete = complete;
        self.history_next_created_at = Some(next_created_at);
        self.updated_at = updated_at;
    }
}

pub open spec fn workspaces(rows: Seq<CodexWatchedWorkspaceRow>) -> Seq<WorkspaceView> {
    rows.map_values(|row: CodexWatchedWorkspaceRow| row@)
}

pub open spec fn bindings_of(rows: Seq<CodexThreadBindingRow>) -> Seq<BindingView> {
    rows.map_values(|row: CodexThreadBindingRow| row@)
}

/// A workspace that a user registers.
pub fn watched_workspace(id: String, user_id: &str, root_path: String, recursive: bool, now: i64) -> (r:
    CodexWatchedWorkspaceRow)
    ensures
        r@ == (WorkspaceView {
            id: id@,
            user_id: user_id@,
            root_path: root_path@,
            recursive,
            enabled: true,
            created_at: now,
            updated_at: now,
        }),
{
    CodexWatchedWorkspaceRow {
        id,
        user_id: user_id.to_owned(),
        root_path,
        recursive,
        enabled: true,
        created_at: now,
        updated_at: now,
    }
}

/// The workspaces of a user, in their order.
pub fn workspaces_for_user(rows: &Vec<CodexWatchedWorkspaceRow>, user_id: &str) -> (r: Vec<
    CodexWatchedWorkspaceRow,
>)
    ensures
        workspaces(r@) == workspaces(rows@).filter(|row: WorkspaceView| row.user_id == user_id@),
{
    let ghost all = workspaces(rows@);
    let ghost mine = |row: WorkspaceView| row.user_id == user_id@;
    let mut r: Vec<CodexWatchedWorkspaceRow> = Vec::new();
    let mut i: usize = 0;
    proof {
        reveal(Seq::filter);
        assert(workspaces(r@) =~= all.take(0).filter(mine));
    }
    while i < rows.len()
        invariant
            i <= rows@.len(),
            all == workspaces(rows@),
            mine == (|row: WorkspaceView| row.user_id == user_id@),
            workspaces(r@) == all.take(i as int).filter(mine),
        decreases rows@.len() - i,
    {
        let ghost prior = r@;
        proof {
            reveal(Seq::filter);
            assert(all.take(i + 1).drop_last() =~= all.take(i as int));
            assert(all.take(i + 1).last() == rows@[i as int]@);
        }
        if same(rows[i].user_id.as_str(), user_id) {
            r.push(rows[i].clone());
            proof {
                assert(workspaces(r@) =~= workspaces(prior).push(rows@[i as int]@));
            }
        }
        i = i + 1;
    }
    proof {
        assert(all.take(i as int) =~= all);
    }
    r
}

/// The first of the bindings that is the user's.
pub open spec fn first_of_user(rows: Seq<BindingView>, user_id: Seq<char>) -> Option<BindingView>
    decreases rows.len(),
{
    if rows.len() == 0 {
        None
    } else if rows[0].user_id == user_id {
        Some(rows[0])
    } else {
        first_of_user(rows.drop_first(), user_id)
    }
}

pub open spec fn opt_binding(row: Option<CodexThreadBindingRow>) -> Option<BindingView> {
    match row {
        Some(row) => Some(row@),
        None => None,
    }
}

/// The first of the bindings that is the user's.
pub fn binding_of_user(rows: &Vec<CodexThreadBindingRow>, user_id: &str) -> (r: Option<CodexThreadBindingRow>)
    ensures
        opt_binding(r) == first_of_user(bindings_of(rows@), user_id@),
{
    let ghost all = bindings_of(rows@);
    let mut i: usize = 0;
    proof {
        assert(all.skip(0) =~= all);
    }
    while i < rows.len()
        invariant
            i <= rows@.len(),
            all == bindings_of(rows@),
            first_of_user(all, user_id@) == first_of_user(all.skip(i as int), user_id@),
        decreases rows@.len() - i,
    {
        proof {
            assert(all.skip(i as int)[0] == rows@[i as int]@);
            assert(all.skip(i as int).drop_first() =~= all.skip(i + 1));
        }
        if same(rows[i].user_id.as_str(), user_id) {
            return Some(rows[i].clone());
        }
        i = i + 1;
    }
    None
}

/// A binding that is stored has the directory, the source, the state and the time that it is stored with;
/// one that is new has nothing read of its history.
pub proof fn a_stored_binding_is_the_latest(row: BindingView, existing: BindingView)
    ensures
        row.stored_over(Some(existing)).cwd == row.cwd,
        row.stored_over(Some(existing)).source == row.source,
        row.stored_over(Some(existing)).live_state == row.live_state,
        row.stored_over(Some(existing)).updated_at == row.updated_at,
        row.stored_over(Some(existing)).same_thread(existing),
        row.stored_over(None) == (BindingView {
            history_cursor: None,
            history_complete: false,
            history_next_created_at: None,
            ..row
        }),
        row.same_thread(existing) <==> row.user_id == existing.user_id && row.codex_home == existing.codex_home
            && row.thread_id == existing.thread_id,
{
}

/// Of a workspace that is stored over another, what it covers, whether it is watched, and when it was
/// changed are the latest.
pub proof fn a_stored_workspace_is_the_latest(row: WorkspaceView, existing: WorkspaceView)
    ensures
        row.stored_over(Some(existing)).updated_at == row.updated_at,
        row.stored_over(Some(existing)).user_id == existing.user_id,
        row.stored_over(Some(existing)).root_path == existing.root_path,
        row.stored_over(None) == row,
        row.same_place(existing) <==> row.user_id == existing.user_id && row.root_path == existing.root_path,
{
}

/// A new state of a thread, and how far its history has been read, change nothing else of its binding but
/// the time.
pub proof fn a_binding_takes_in_what_is_said_of_its_thread(
    row: BindingView,
    live_state: Seq<char>,
    cursor: Option<Seq<char>>,
    complete: bool,
    time: i64,
    updated_at: i64,
)
    ensures
        row.with_live_state(live_state, updated_at) == (BindingView { live_state, updated_at, ..row }),
        row.with_history_state(cursor, complete, time, updated_at) == (BindingView {
            history_cursor: cursor,
            history_complete: complete,
            history_next_created_at: Some(time),
            updated_at,
            ..row
        }),
{
}

/// An update changes what it names of a conversation, and nothing else.
pub proof fn an_update_changes_what_it_names(row: ConversationView, update: UpdateView)
    ensures
        row.updated(no_update()) == row,
        row.updated(update).id == row.id,
        row.updated(update).user_id == row.user_id,
        update.name matches Some(name) ==> row.updated(update).name == name,
        update.name is None ==> row.updated(update).name == row.name,
        update.extra matches Some(extra) ==> row.updated(update).extra == extra,
        update.extra is None ==> row.updated(update).extra == row.extra,
        update.status matches Some(status) ==> row.updated(update).status == Some(status),
        update.status is None ==> row.updated(update).status == row.status,
        update.updated_at matches Some(at) ==> row.updated(update).updated_at == at,
        update.updated_at is None ==> row.updated(update).updated_at == row.updated_at,
{
}

/// The binding that is found for a user is the first that is the user's.
pub proof fn the_first_binding_of_a_user_is_found(rows: Seq<BindingView>, user_id: Seq<char>, at: int)
    ensures
        0 <= at < rows.len() && rows[at].user_id == user_id && (forall|i: int|
            0 <= i < at ==> (#[trigger] rows[i]).user_id != user_id) ==> first_of_user(rows, user_id) == Some(rows[at]),
        (forall|i: int| 0 <= i < rows.len() ==> (#[trigger] rows[i]).user_id != user_id) ==> first_of_user(rows, user_id)
            is None,
    decreases rows.len(),
{
    if rows.len() > 0 {
        let rest = rows.drop_first();
        assert(forall|i: int| 0 <= i < rest.len() ==> #[trigger] rest[i] == rows[i + 1]);
        the_first_binding_of_a_user_is_found(rest, user_id, at - 1);
    }
}

} // verus!
