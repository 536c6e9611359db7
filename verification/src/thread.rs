//! What a thread of the Codex app-server says of itself.
use vstd::prelude::*;

use crate::json::{bool_in, i64_in, opt_tree, str_in, trees, Json, Tree};
use crate::paths::{within, workspace_matches};
use crate::rows::{BindingView, CodexThreadBindingRow, CodexWatchedWorkspaceRow, ConversationError, FailureView, WorkspaceView};
use crate::text::{
    capitalized, chars_of, clone_opt, find_last_piece, equals, is_blank, last_piece, opt_chars, opt_string, replace,
    replaced, same, same_letters, string_of, to_owned, to_upper, trim, trimmed, uppers,
};

verus! {

/// The title of a thread that has none.
pub const DEFAULT_TITLE: &'static str = "GPT Codex";

/// The title of a sub-agent that has none.
pub const DEFAULT_SUBAGENT_TITLE: &'static str = "GPT Codex 子智能体";

/// How many characters a title has at most.
pub const TITLE_LENGTH: usize = 80;

/// What a thread says of its place among the threads.
#[derive(Debug, PartialEq, Eq)]
pub struct CodexThreadMetadata {
    pub role: String,
    pub parent_thread_id: Option<String>,
    pub kind: Option<String>,
    pub agent_path: Option<String>,
    pub agent_nickname: Option<String>,
    pub agent_role: Option<String>,
    pub depth: Option<i64>,
    pub can_accept_direct_input: Option<bool>,
}

pub struct MetadataView {
    pub role: Seq<char>,
    pub parent_thread_id: Option<Seq<char>>,
    pub kind: Option<Seq<char>>,
    pub agent_path: Option<Seq<char>>,
    pub agent_nickname: Option<Seq<char>>,
    pub agent_role: Option<Seq<char>>,
    pub depth: Option<i64>,
    pub can_accept_direct_input: Option<bool>,
}

impl View for CodexThreadMetadata {
    type V = MetadataView;

    open spec fn view(&self) -> MetadataView {
        MetadataView {
            role: self.role@,
            parent_thread_id: opt_string(self.parent_thread_id),
            kind: opt_string(self.kind),
            agent_path: opt_string(self.agent_path),
            agent_nickname: opt_string(self.agent_nickname),
            agent_role: opt_string(self.agent_role),
            depth: self.depth,
            can_accept_direct_input: self.can_accept_direct_input,
        }
    }
}

/// What a thread's source says of the sub-agent that it is, if it is one.
pub open spec fn subagent_of(thread: Tree) -> Option<Tree> {
    match thread.get_in("source"@, "subAgent"@) {
        Some(subagent) => Some(subagent),
        None => thread.get_in("source"@, "subagent"@),
    }
}

/// The kind of sub-agent that a thread is: the first key of what its source says of it.
pub open spec fn kind_key(thread: Tree) -> Option<Seq<char>> {
    match subagent_of(thread) {
        Some(subagent) => subagent.first_key(),
        None => None,
    }
}

/// What a thread's source says under the kind of sub-agent.
pub open spec fn details_of(thread: Tree) -> Option<Tree> {
    match kind_key(thread) {
        Some(key) => subagent_of(thread)->0.get(key),
        None => None,
    }
}

/// The string that the details hold under one of two names.
pub open spec fn detail(details: Option<Tree>, camel: Seq<char>, snake: Seq<char>) -> Option<Seq<char>> {
    match details {
        Some(details) => str_in(details.get_either(camel, snake)),
        None => None,
    }
}

/// The string that a thread holds under one of two names, or else that its details hold there.
pub open spec fn trait_of(thread: Tree, camel: Seq<char>, snake: Seq<char>) -> Option<Seq<char>> {
    match str_in(thread.get_either(camel, snake)) {
        Some(s) => Some(s),
        None => detail(details_of(thread), camel, snake),
    }
}

/// What a thread says of its place among the threads.
pub open spec fn metadata_of(thread: Tree) -> MetadataView {
    let parent_thread_id = trait_of(thread, "parentThreadId"@, "parent_thread_id"@);
    let is_subagent = parent_thread_id is Some || str_in(thread.get_either("threadSource"@, "thread_source"@))
        == Some("subagent"@) || subagent_of(thread) is Some;
    MetadataView {
        role: if is_subagent {
            "subagent"@
        } else {
            "root"@
        },
        parent_thread_id,
        kind: match kind_key(thread) {
            Some(key) => Some(replaced(key, '_', '_', '-')),
            None => None,
        },
        agent_path: trait_of(thread, "agentPath"@, "agent_path"@),
        agent_nickname: trait_of(thread, "agentNickname"@, "agent_nickname"@),
        agent_role: trait_of(thread, "agentRole"@, "agent_role"@),
        depth: match details_of(thread) {
            Some(details) => i64_in(details.get("depth"@)),
            None => None,
        },
        can_accept_direct_input: bool_in(thread.get_either("canAcceptDirectInput"@, "can_accept_direct_input"@)),
    }
}

fn find_subagent(thread: &Json) -> (r: Option<&Json>)
    ensures
        opt_tree(r) == subagent_of(thread@),
{
    match thread.get_in("source", "subAgent") {
        Some(subagent) => Some(subagent),
        None => thread.get_in("source", "subagent"),
    }
}

fn either_str<'a>(json: &'a Json, camel: &str, snake: &str) -> (r: Option<&'a str>)
    ensures
        opt_chars(r) == str_in(json@.get_either(camel@, snake@)),
{
    match json.get_either(camel, snake) {
        Some(member) => member.as_str(),
        None => None,
    }
}

fn either_bool(json: &Json, camel: &str, snake: &str) -> (r: Option<bool>)
    ensures
        r == bool_in(json@.get_either(camel@, snake@)),
{
    match json.get_either(camel, snake) {
        Some(member) => member.as_bool(),
        None => None,
    }
}

fn find_trait(thread: &Json, details: Option<&Json>, camel: &str, snake: &str) -> (r: Option<String>)
    requires
        opt_tree(details) == details_of(thread@),
    ensures
        opt_string(r) == trait_of(thread@, camel@, snake@),
{
    match either_str(thread, camel, snake) {
        Some(s) => Some(s.to_owned()),
        None => match details {
            Some(details) => to_owned(either_str(details, camel, snake)),
            None => None,
        },
    }
}

/// What a thread says of its place among the threads.
pub fn thread_metadata(thread: &Json) -> (r: CodexThreadMetadata)
    ensures
        r@ == metadata_of(thread@),
{
    let subagent = find_subagent(thread);
    let mut kind: Option<String> = None;
    let mut details: Option<&Json> = None;
    if let Some(subagent) = subagent {
        if let Some(member) = subagent.first_member() {
            kind = Some(string_of(&replace(&chars_of(member.0.as_str()), '_', '_', '-')));
            details = Some(member.1);
        }
    }
    let parent_thread_id = find_trait(thread, details, "parentThreadId", "parent_thread_id");
    let is_subagent = parent_thread_id.is_some() || equals(
        either_str(thread, "threadSource", "thread_source"),
        "subagent",
    ) || subagent.is_some();
    CodexThreadMetadata {
        role: if is_subagent {
            "subagent".to_owned()
        } else {
            "root".to_owned()
        },
        parent_thread_id,
        kind,
        agent_path: find_trait(thread, details, "agentPath", "agent_path"),
        agent_nickname: find_trait(thread, details, "agentNickname", "agent_nickname"),
        agent_role: find_trait(thread, details, "agentRole", "agent_role"),
        depth: match details {
            Some(details) => match details.get("depth") {
                Some(depth) => depth.as_i64(),
                None => None,
            },
            None => None,
        },
        can_accept_direct_input: either_bool(thread, "canAcceptDirectInput", "can_accept_direct_input"),
    }
}

/// The member at the end of a path of four names.
pub open spec fn at_path(tree: Tree, a: Seq<char>, b: Seq<char>, c: Seq<char>, d: Seq<char>) -> Option<Tree> {
    match tree.get_in(a, b) {
        Some(inner) => inner.get_in(c, d),
        None => None,
    }
}

fn follow<'a>(json: &'a Json, a: &str, b: &str, c: &str, d: &str) -> (r: Option<&'a Json>)
    ensures
        opt_tree(r) == at_path(json@, a@, b@, c@, d@),
{
    match json.get_in(a, b) {
        Some(inner) => inner.get_in(c, d),
        None => None,
    }
}

/// The thread that a thread was spawned from.
pub open spec fn parent_of(thread: Tree) -> Option<Seq<char>> {
    match str_in(thread.get_either("parentThreadId"@, "parent_thread_id"@)) {
        Some(id) => Some(id),
        None => str_in(
            match at_path(thread, "source"@, "subAgent"@, "thread_spawn"@, "parent_thread_id"@) {
                Some(id) => Some(id),
                None => match at_path(thread, "source"@, "subagent"@, "thread_spawn"@, "parent_thread_id"@) {
                    Some(id) => Some(id),
                    None => at_path(thread, "source"@, "subAgent"@, "threadSpawn"@, "parentThreadId"@),
                },
            },
        ),
    }
}

/// The thread that a thread was spawned from.
pub fn thread_parent_id(thread: &Json) -> (r: Option<&str>)
    ensures
        opt_chars(r) == parent_of(thread@),
{
    if let Some(id) = either_str(thread, "parentThreadId", "parent_thread_id") {
        return Some(id);
    }
    let spawned = match follow(thread, "source", "subAgent", "thread_spawn", "parent_thread_id") {
        Some(id) => Some(id),
        None => match follow(thread, "source", "subagent", "thread_spawn", "parent_thread_id") {
            Some(id) => Some(id),
            None => follow(thread, "source", "subAgent", "threadSpawn", "parentThreadId"),
        },
    };
    match spawned {
        Some(id) => id.as_str(),
        None => None,
    }
}

/// The thread is a sub-agent's.
pub open spec fn is_subagent(thread: Tree) -> bool {
    ||| parent_of(thread) is Some
    ||| str_in(thread.get_either("threadSource"@, "thread_source"@)) == Some("subagent"@)
    ||| subagent_of(thread) is Some
}

/// Whether the thread is a sub-agent's.
pub fn thread_is_subagent(thread: &Json) -> (r: bool)
    ensures
        r == is_subagent(thread@),
{
    thread_parent_id(thread).is_some() || equals(
        either_str(thread, "threadSource", "thread_source"),
        "subagent",
    ) || find_subagent(thread).is_some()
}

/// A thread has the role of a sub-agent exactly when it is a sub-agent's; and the thread that it
/// names as the one it was spawned from is the one that its metadata names.
pub proof fn the_role_tells_sub_agents(thread: Tree)
    ensures
        metadata_of(thread).role == "subagent"@ <==> is_subagent(thread),
        metadata_of(thread).role == "root"@ <==> !is_subagent(thread),
        str_in(thread.get_either("parentThreadId"@, "parent_thread_id"@)) is Some ==> metadata_of(
            thread,
        ).parent_thread_id == parent_of(thread),
{
    reveal_strlit("subagent");
    reveal_strlit("root");
    assert("subagent"@.len() != "root"@.len());
}

/// The type of a thread's status.
pub open spec fn status_of(thread: Tree) -> Option<Seq<char>> {
    str_in(thread.get_in("status"@, "type"@))
}

/// The type of a thread's status.
pub fn thread_status(thread: &Json) -> (r: Option<&str>)
    ensures
        opt_chars(r) == status_of(thread@),
{
    match thread.get_in("status", "type") {
        Some(status) => status.as_str(),
        None => None,
    }
}

/// Whether a turn runs in the thread.
pub fn thread_is_active(thread: &Json) -> (r: bool)
    ensures
        r == (status_of(thread@) == Some("active"@)),
{
    equals(thread_status(thread), "active")
}

/// The title that a text gives: its first characters, without white space round it.
pub open spec fn title_of(value: Seq<char>) -> Seq<char> {
    let title = trimmed(value);
    if title.len() == 0 {
        DEFAULT_TITLE@
    } else if title.len() > TITLE_LENGTH {
        title.take(TITLE_LENGTH as int)
    } else {
        title
    }
}

/// The title that a text gives: its first characters, without white space round it.
pub fn short_title(value: &str) -> (r: String)
    ensures
        r@ == title_of(value@),
{
    let mut title = trim(value);
    if title.len() == 0 {
        return DEFAULT_TITLE.to_owned();
    }
    if title.len() > TITLE_LENGTH {
        let ghost whole = title@;
        title.truncate(TITLE_LENGTH);
        proof {
            assert(title@ =~= whole.take(TITLE_LENGTH as int));
        }
    }
    string_of(&title)
}

/// A title is never empty, nor longer than the limit.
pub proof fn a_title_is_neither_empty_nor_long(value: Seq<char>)
    ensures
        0 < title_of(value).len() <= TITLE_LENGTH,
{
    reveal_strlit("GPT Codex");
}

/// The text, where it is there and not blank.
pub open spec fn told(text: Option<Seq<char>>) -> Option<Seq<char>> {
    match text {
        Some(text) => if trimmed(text).len() > 0 {
            Some(text)
        } else {
            None
        },
        None => None,
    }
}

fn tells(text: Option<&str>) -> (r: bool)
    ensures
        r == (told(opt_chars(text)) is Some),
{
    match text {
        Some(text) => !is_blank(text),
        None => false,
    }
}

/// The title that the path of an agent gives: its last name, in words.
pub open spec fn path_title(path: Option<Seq<char>>) -> Option<Seq<char>> {
    match path {
        Some(path) => match last_piece(path) {
            Some(piece) => Some(capitalized(replaced(piece, '_', '-', ' '))),
            None => None,
        },
        None => None,
    }
}

fn find_path_title(path: Option<&str>) -> (r: Option<String>)
    ensures
        opt_string(r) == path_title(opt_chars(path)),
{
    match path {
        Some(path) => match find_last_piece(path) {
            Some(piece) => {
                let mut words = replace(&piece, '_', '-', ' ');
                if words.len() > 0 {
                    let first: char = words[0];
                    words.set(0, to_upper(first));
                }
                Some(string_of(&words))
            },
            None => None,
        },
        None => None,
    }
}

/// The title that a thread is shown under: its name, else the name of its agent, else the role of
/// its agent, else the nickname of its agent, else how it starts.
pub open spec fn display_title(thread: Tree, metadata: MetadataView) -> Seq<char> {
    if told(thread.str_at("name"@)) is Some {
        title_of(thread.str_at("name"@)->0)
    } else if path_title(metadata.agent_path) is Some {
        title_of(path_title(metadata.agent_path)->0)
    } else if told(metadata.agent_role) is Some {
        title_of(metadata.agent_role->0)
    } else if told(metadata.agent_nickname) is Some {
        title_of(metadata.agent_nickname->0)
    } else if told(thread.str_at("preview"@)) is Some {
        title_of(thread.str_at("preview"@)->0)
    } else if metadata.role == "subagent"@ {
        DEFAULT_SUBAGENT_TITLE@
    } else {
        DEFAULT_TITLE@
    }
}

/// The title that a thread is shown under.
pub fn thread_display_title(thread: &Json, metadata: &CodexThreadMetadata) -> (r: String)
    ensures
        r@ == display_title(thread@, metadata@),
{
    let name = thread.str_at("name");
    if tells(name) {
        if let Some(name) = name {
            return short_title(name);
        }
    }
    if let Some(title) = find_path_title(crate::text::as_deref(&metadata.agent_path)) {
        return short_title(title.as_str());
    }
    let role = crate::text::as_deref(&metadata.agent_role);
    if tells(role) {
        if let Some(role) = role {
            return short_title(role);
        }
    }
    let nickname = crate::text::as_deref(&metadata.agent_nickname);
    if tells(nickname) {
        if let Some(nickname) = nickname {
            return short_title(nickname);
        }
    }
    let preview = thread.str_at("preview");
    if tells(preview) {
        if let Some(preview) = preview {
            return short_title(preview);
        }
    }
    if same(metadata.role.as_str(), "subagent") {
        DEFAULT_SUBAGENT_TITLE.to_owned()
    } else {
        DEFAULT_TITLE.to_owned()
    }
}

/// The name of the source that a thread came from: the source itself where it is a string, else
/// its type, else the first of its keys.
pub open spec fn name_of_source(source: Option<Tree>) -> Seq<char> {
    match source {
        Some(source) => match source.as_str() {
            Some(name) => name,
            None => match source.str_at("type"@) {
                Some(name) => name,
                None => match source.first_key() {
                    Some(key) => if uppers(key) == uppers("subagent"@) {
                        "subagent"@
                    } else {
                        key
                    },
                    None => "unknown"@,
                },
            },
        },
        None => "unknown"@,
    }
}

/// The name of the source that a thread came from.
pub fn source_name(source: Option<&Json>) -> (r: String)
    ensures
        r@ == name_of_source(opt_tree(source)),
{
    match source {
        Some(source) => {
            if let Some(name) = source.as_str() {
                return name.to_owned();
            }
            if let Some(name) = source.str_at("type") {
                return name.to_owned();
            }
            match source.first_member() {
                Some(member) => if same_letters(member.0.as_str(), "subagent") {
                    "subagent".to_owned()
                } else {
                    member.0.clone()
                },
                None => "unknown".to_owned(),
            }
        },
        None => "unknown".to_owned(),
    }
}

/// A time in seconds has a time in milliseconds.
pub open spec fn seconds_fit(value: Option<i64>) -> bool {
    match value {
        Some(seconds) => i64::MIN <= seconds * 1000 <= i64::MAX,
        None => true,
    }
}

/// A time in milliseconds, from one in seconds.
pub open spec fn millis(value: Option<i64>, default: i64) -> i64 {
    match value {
        Some(seconds) => (seconds * 1000) as i64,
        None => default,
    }
}

pub(crate) fn to_millis(value: Option<i64>, default: i64) -> (r: i64)
    requires
        seconds_fit(value),
    ensures
        r == millis(value, default),
{
    match value {
        Some(seconds) => seconds * 1000,
        None => default,
    }
}

pub(crate) fn i64_at(json: &Json, key: &str) -> (r: Option<i64>)
    ensures
        r == i64_in(json@.get(key@)),
{
    match json.get(key) {
        Some(member) => member.as_i64(),
        None => None,
    }
}

pub(crate) fn is_in_range(value: Option<i64>) -> (r: bool)
    ensures
        r == seconds_fit(value),
{
    match value {
        Some(seconds) => -9_223_372_036_854_775 <= seconds && seconds <= 9_223_372_036_854_775,
        None => true,
    }
}

/// The time at which the thread was created has a time in milliseconds.
pub open spec fn age_fits(thread: Tree) -> bool {
    seconds_fit(i64_in(thread.get("createdAt"@)))
}

/// Whether the time at which the thread was created has a time in milliseconds.
pub fn thread_age_fits(thread: &Json) -> (r: bool)
    ensures
        r == age_fits(thread@),
{
    is_in_range(i64_at(thread, "createdAt"))
}

/// The thread's times have times in milliseconds.
pub open spec fn times_fit(thread: Tree) -> bool {
    age_fits(thread) && seconds_fit(i64_in(thread.get("updatedAt"@)))
}

/// Whether the thread's times have times in milliseconds.
pub fn thread_times_fit(thread: &Json) -> (r: bool)
    ensures
        r == times_fit(thread@),
{
    thread_age_fits(thread) && is_in_range(i64_at(thread, "updatedAt"))
}

/// The thread's id and directory, which every thread has.
pub open spec fn place_of(thread: Tree) -> Result<(Seq<char>, Seq<char>), FailureView> {
    match (thread.str_at("id"@), thread.str_at("cwd"@)) {
        (Some(id), Some(cwd)) => Ok((id, cwd)),
        (None, _) => Err(FailureView::Internal("Codex thread omitted id"@)),
        (Some(_), None) => Err(FailureView::Internal("Codex thread omitted cwd"@)),
    }
}

fn internal(reason: &str) -> (r: ConversationError)
    ensures
        r@ == FailureView::Internal(reason@),
{
    ConversationError::Internal { reason: reason.to_owned() }
}

/// The thread's id and directory, or which of them it lacks.
pub fn thread_place(thread: &Json) -> (r: Result<(String, String), ConversationError>)
    ensures
        match r {
            Ok(place) => place_of(thread@) == Ok::<(Seq<char>, Seq<char>), FailureView>((place.0@, place.1@)),
            Err(error) => place_of(thread@) == Err::<(Seq<char>, Seq<char>), FailureView>(error@),
        },
{
    let id = match thread.str_at("id") {
        Some(id) => id.to_owned(),
        None => return Err(internal("Codex thread omitted id")),
    };
    match thread.str_at("cwd") {
        Some(cwd) => Ok((id, cwd.to_owned())),
        None => Err(internal("Codex thread omitted cwd")),
    }
}

/// The binding of a thread to a conversation.
pub open spec fn bound(
    codex_home: Seq<char>,
    thread: Tree,
    user_id: Seq<char>,
    conversation_id: Seq<char>,
    live_state: Seq<char>,
    now: i64,
) -> Result<BindingView, FailureView> {
    match place_of(thread) {
        Ok(place) => Ok(
            BindingView {
                codex_home,
                thread_id: place.0,
                user_id,
                conversation_id,
                cwd: place.1,
                source: name_of_source(thread.get("source"@)),
                live_state,
                history_cursor: None,
                history_complete: false,
                history_next_created_at: None,
                created_at: millis(i64_in(thread.get("createdAt"@)), now),
                updated_at: now,
            },
        ),
        Err(failure) => Err(failure),
    }
}

pub open spec fn bound_view(r: Result<CodexThreadBindingRow, ConversationError>) -> Result<BindingView, FailureView> {
    match r {
        Ok(binding) => Ok(binding@),
        Err(error) => Err(error@),
    }
}

/// The binding of a thread to a conversation.
pub fn binding_from_thread(
    codex_home: &str,
    thread: &Json,
    user_id: &str,
    conversation_id: &str,
    live_state: &str,
    now: i64,
) -> (r: Result<CodexThreadBindingRow, ConversationError>)
    requires
        age_fits(thread@),
    ensures
        bound_view(r) == bound(codex_home@, thread@, user_id@, conversation_id@, live_state@, now),
{
    match thread_place(thread) {
        Ok(place) => Ok(
            CodexThreadBindingRow {
                codex_home: codex_home.to_owned(),
                thread_id: place.0,
                user_id: user_id.to_owned(),
                conversation_id: conversation_id.to_owned(),
                cwd: place.1,
                source: source_name(thread.get("source")),
                live_state: live_state.to_owned(),
                history_cursor: None,
                history_complete: false,
                history_next_created_at: None,
                created_at: to_millis(i64_at(thread, "createdAt"), now),
                updated_at: now,
            },
        ),
        Err(error) => Err(error),
    }
}

/// A thread, and the directory that it names with links resolved.
#[derive(Debug, PartialEq)]
pub struct FetchedThread {
    pub thread: Json,
    pub cwd: Option<String>,
}

pub struct FetchedView {
    pub thread: Tree,
    pub cwd: Option<Seq<char>>,
}

impl View for FetchedThread {
    type V = FetchedView;

    open spec fn view(&self) -> FetchedView {
        FetchedView { thread: self.thread@, cwd: opt_string(self.cwd) }
    }
}

impl Clone for FetchedThread {
    fn clone(&self) -> (r: FetchedThread)
        ensures
            r@ == self@,
    {
        FetchedThread { thread: self.thread.clone(), cwd: clone_opt(&self.cwd) }
    }
}

impl FetchedView {
    /// The thread's directory is one that the workspace covers.
    pub open spec fn is_in(self, workspace: WorkspaceView) -> bool {
        match self.cwd {
            Some(cwd) => within(workspace.root_path, cwd, workspace.recursive),
            None => false,
        }
    }
}

/// Whether the thread's directory is one that the workspace covers.
pub fn thread_matches_workspace(fetched: &FetchedThread, workspace: &CodexWatchedWorkspaceRow) -> (r: bool)
    ensures
        r == fetched@.is_in(workspace@),
{
    match &fetched.cwd {
        Some(cwd) => workspace_matches(workspace.root_path.as_str(), cwd.as_str(), workspace.recursive),
        None => false,
    }
}

pub open spec fn fetched(rows: Seq<FetchedThread>) -> Seq<FetchedView> {
    rows.map_values(|row: FetchedThread| row@)
}

/// The first of the turns that is in progress.
pub open spec fn first_in_progress(turns: Seq<Tree>) -> Option<Tree>
    decreases turns.len(),
{
    if turns.len() == 0 {
        None
    } else if turns[0].str_at("status"@) == Some("inProgress"@) {
        Some(turns[0])
    } else {
        first_in_progress(turns.drop_first())
    }
}

/// The turn that a thread says is running: the first one in progress.
pub open spec fn running_turn(thread: Tree) -> Option<Seq<char>> {
    match thread.get("turns"@) {
        Some(Tree::Array(turns)) => match first_in_progress(turns) {
            Some(turn) => turn.str_at("id"@),
            None => None,
        },
        _ => None,
    }
}

/// The turn that a thread says is running.
pub fn thread_running_turn(thread: &Json) -> (r: Option<&str>)
    ensures
        opt_chars(r) == running_turn(thread@),
{
    let turns = match thread.get("turns") {
        Some(turns) => match turns.as_array() {
            Some(turns) => turns,
            None => return None,
        },
        None => return None,
    };
    let ghost all = trees(turns@);
    let mut i: usize = 0;
    proof {
        assert(all.skip(0) =~= all);
    }
    while i < turns.len()
        invariant
            i <= turns@.len(),
            all == trees(turns@),
            thread@.get("turns"@) == Some(Tree::Array(all)),
            first_in_progress(all) == first_in_progress(all.skip(i as int)),
        decreases turns@.len() - i,
    {
        proof {
            assert(all.skip(i as int)[0] == turns@[i as int]@);
            assert(all.skip(i as int).drop_first() =~= all.skip(i + 1));
        }
        if equals(turns[i].str_at("status"), "inProgress") {
            return turns[i].str_at("id");
        }
        i = i + 1;
    }
    None
}

/// A trait of a thread is what the thread itself says, under the first of its two names that is there, or
/// else what its source says under the kind of sub-agent that it is.
pub proof fn a_trait_is_what_the_thread_says(
    thread: Tree,
    source: Tree,
    subagent: Tree,
    kind: Seq<char>,
    details: Tree,
    camel: Seq<char>,
    snake: Seq<char>,
    said: Seq<char>,
)
    ensures
        thread.get(camel) == Some(Tree::Str(said)) ==> trait_of(thread, camel, snake) == Some(said),
        thread.get(camel) is None && thread.get(snake) == Some(Tree::Str(said)) ==> trait_of(thread, camel, snake) == Some(
            said,
        ),
        thread.get("source"@) == Some(source) && (source.get("subAgent"@) == Some(subagent) || source.get("subAgent"@) is None
            && source.get("subagent"@) == Some(subagent)) && subagent.first_key() == Some(kind) && subagent.get(kind) == Some(
            details,
        ) && thread.get(camel) is None && thread.get(snake) is None ==> {
            &&& details.get(camel) == Some(Tree::Str(said)) ==> trait_of(thread, camel, snake) == Some(said)
            &&& details.get(camel) is None && details.get(snake) == Some(Tree::Str(said)) ==> trait_of(thread, camel, snake)
                == Some(said)
            &&& details.get(camel) is None && details.get(snake) is None ==> trait_of(thread, camel, snake) is None
        },
        thread.get(camel) is None && thread.get(snake) is None && thread.get("source"@) is None ==> trait_of(
            thread,
            camel,
            snake,
        ) is None,
{
}

/// What a thread says of its place is told by the traits of these names; its kind is the first key of
/// what its source says, with dashes, and its depth is what stands under that key. Whether it takes input
/// is what the thread says itself.
pub proof fn a_thread_tells_its_place(
    thread: Tree,
    source: Tree,
    subagent: Tree,
    kind: Seq<char>,
    details: Tree,
    depth: i64,
    b: bool,
    i: int,
)
    ensures
        metadata_of(thread).parent_thread_id == trait_of(thread, "parentThreadId"@, "parent_thread_id"@),
        metadata_of(thread).agent_path == trait_of(thread, "agentPath"@, "agent_path"@),
        metadata_of(thread).agent_nickname == trait_of(thread, "agentNickname"@, "agent_nickname"@),
        metadata_of(thread).agent_role == trait_of(thread, "agentRole"@, "agent_role"@),
        thread.get("source"@) == Some(source) && (source.get("subAgent"@) == Some(subagent) || source.get("subAgent"@) is None
            && source.get("subagent"@) == Some(subagent)) && subagent.first_key() == Some(kind) && subagent.get(kind) == Some(
            details,
        ) ==> {
            &&& metadata_of(thread).kind matches Some(shown) && shown.len() == kind.len() && (0 <= i < kind.len() ==> shown[i]
                == if kind[i] == '_' {
                '-'
            } else {
                kind[i]
            })
            &&& details.get("depth"@) == Some(Tree::Int(depth)) ==> metadata_of(thread).depth == Some(depth)
            &&& details.get("depth"@) is None ==> metadata_of(thread).depth is None
        },
        thread.get("source"@) is None ==> metadata_of(thread).kind is None && metadata_of(thread).depth is None,
        thread.get("canAcceptDirectInput"@) == Some(Tree::Bool(b)) ==> metadata_of(thread).can_accept_direct_input == Some(b),
        thread.get("canAcceptDirectInput"@) is None && thread.get("can_accept_direct_input"@) == Some(Tree::Bool(b))
            ==> metadata_of(thread).can_accept_direct_input == Some(b),
        thread.get("canAcceptDirectInput"@) is None && thread.get("can_accept_direct_input"@) is None ==> metadata_of(
            thread,
        ).can_accept_direct_input is None,
{
}

/// The thread that a thread was spawned from is the one that it names itself, under the first of two
/// names that is there, or else the one that its source names under the way it was spawned.
pub proof fn a_spawned_thread_names_its_parent(thread: Tree, source: Tree, subagent: Tree, spawn: Tree, id: Seq<char>)
    ensures
        thread.get("parentThreadId"@) == Some(Tree::Str(id)) ==> parent_of(thread) == Some(id),
        thread.get("parentThreadId"@) is None && thread.get("parent_thread_id"@) == Some(Tree::Str(id)) ==> parent_of(thread)
            == Some(id),
        thread.get("parentThreadId"@) is None && thread.get("parent_thread_id"@) is None ==> {
            &&& thread.get("source"@) is None ==> parent_of(thread) is None
            &&& thread.get("source"@) == Some(source) ==> {
                &&& source.get("subAgent"@) == Some(subagent) && subagent.get("thread_spawn"@) == Some(spawn) && spawn.get(
                    "parent_thread_id"@,
                ) == Some(Tree::Str(id)) ==> parent_of(thread) == Some(id)
                &&& source.get("subAgent"@) is None && source.get("subagent"@) == Some(subagent) && subagent.get(
                    "thread_spawn"@,
                ) == Some(spawn) && spawn.get("parent_thread_id"@) == Some(Tree::Str(id)) ==> parent_of(thread) == Some(id)
                &&& source.get("subAgent"@) == Some(subagent) && subagent.get("thread_spawn"@) is None && source.get(
                    "subagent"@,
                ) is None && subagent.get("threadSpawn"@) == Some(spawn) && spawn.get("parentThreadId"@) == Some(Tree::Str(id))
                    ==> parent_of(thread) == Some(id)
                &&& source.get("subAgent"@) is None && source.get("subagent"@) is None ==> parent_of(thread) is None
            }
        },
{
}

/// A thread is a sub-agent's exactly where it names the one that it was spawned from, or says that its
/// source is a sub-agent, or has a source that tells of one.
pub proof fn a_thread_of_a_sub_agent_says_so(thread: Tree, source: Tree)
    ensures
        parent_of(thread) is Some ==> is_subagent(thread),
        thread.get("threadSource"@) == Some(Tree::Str("subagent"@)) ==> is_subagent(thread),
        thread.get("threadSource"@) is None && thread.get("thread_source"@) == Some(Tree::Str("subagent"@)) ==> is_subagent(
            thread,
        ),
        thread.get("source"@) == Some(source) && (source.get("subAgent"@) is Some || source.get("subagent"@) is Some)
            ==> is_subagent(thread),
        is_subagent(thread) ==> {
            ||| parent_of(thread) is Some
            ||| thread.get("threadSource"@) == Some(Tree::Str("subagent"@))
            ||| thread.get("thread_source"@) == Some(Tree::Str("subagent"@))
            ||| thread.get("source"@) matches Some(said) && (said.get("subAgent"@) is Some || said.get("subagent"@) is Some)
        },
{
}

/// The title that a text gives is how it starts without the white space round it, up to eighty
/// characters; a text of nothing else gives the name of the assistant.
pub proof fn a_title_is_how_a_text_starts(value: Seq<char>)
    ensures
        trimmed(value).len() == 0 ==> title_of(value) == "GPT Codex"@,
        0 < trimmed(value).len() <= 80 ==> title_of(value) == trimmed(value),
        trimmed(value).len() > 80 ==> title_of(value).len() == 80 && forall|i: int|
            0 <= i < 80 ==> #[trigger] title_of(value)[i] == trimmed(value)[i],
{
}

/// A thread is shown under its name; without one under the last name on the path of its agent, in words;
/// then under the role of its agent, then under the nickname of its agent, then under how it starts. A
/// blank text counts as none. Where none is there, it is shown under the name of the assistant, or of a
/// sub-agent where it is one's.
pub proof fn a_thread_is_shown_under_the_first_title_there_is(
    thread: Tree,
    metadata: MetadataView,
    path: Seq<char>,
    piece: Seq<char>,
    text: Seq<char>,
)
    ensures
        thread.get("name"@) == Some(Tree::Str(text)) && trimmed(text).len() > 0 ==> display_title(thread, metadata) == title_of(
            text,
        ),
        told(thread.str_at("name"@)) is None ==> {
            &&& metadata.agent_path == Some(path) && last_piece(path) == Some(piece) ==> display_title(thread, metadata)
                == title_of(capitalized(replaced(piece, '_', '-', ' ')))
            &&& path_title(metadata.agent_path) is None ==> {
                &&& metadata.agent_role == Some(text) && trimmed(text).len() > 0 ==> display_title(thread, metadata)
                    == title_of(text)
                &&& told(metadata.agent_role) is None ==> {
                    &&& metadata.agent_nickname == Some(text) && trimmed(text).len() > 0 ==> display_title(thread, metadata)
                        == title_of(text)
                    &&& told(metadata.agent_nickname) is None ==> {
                        &&& thread.get("preview"@) == Some(Tree::Str(text)) && trimmed(text).len() > 0 ==> display_title(
                            thread,
                            metadata,
                        ) == title_of(text)
                        &&& told(thread.str_at("preview"@)) is None ==> {
                            &&& metadata.role == "subagent"@ ==> display_title(thread, metadata) == "GPT Codex 子智能体"@
                            &&& metadata.role != "subagent"@ ==> display_title(thread, metadata) == "GPT Codex"@
                        }
                    }
                }
            }
        },
        told(None) is None,
        told(Some(text)) is None <==> trimmed(text).len() == 0,
        path_title(None) is None,
        path_title(Some(path)) is None <==> last_piece(path) is None,
{
}

/// The name of a source is the source itself where it is a text, else its type, else the first of its
/// keys, where a sub-agent is one in whatever case; without any of them it is not known.
pub proof fn a_source_is_named_by_what_it_is(source: Tree, name: Seq<char>)
    ensures
        name_of_source(None) == "unknown"@,
        name_of_source(Some(Tree::Str(name))) == name,
        source.get("type"@) == Some(Tree::Str(name)) ==> name_of_source(Some(source)) == name,
        !(source is Str) && !(source.get("type"@) matches Some(Tree::Str(_))) ==> {
            &&& source.first_key() == Some(name) && uppers(name) == uppers("subagent"@) ==> name_of_source(Some(source))
                == "subagent"@
            &&& source.first_key() == Some(name) && uppers(name) != uppers("subagent"@) ==> name_of_source(Some(source)) == name
            &&& source.first_key() is None ==> name_of_source(Some(source)) == "unknown"@
        },
{
}

/// A thread has the id and the directory that it names, and must name both; a time that it gives is in
/// seconds, of a thousand milliseconds each.
pub proof fn a_thread_has_the_place_that_it_names(thread: Tree, id: Seq<char>, cwd: Seq<char>, seconds: i64, default: i64)
    ensures
        place_of(thread) == Ok::<(Seq<char>, Seq<char>), FailureView>((id, cwd)) <==> thread.get("id"@) == Some(Tree::Str(id))
            && thread.get("cwd"@) == Some(Tree::Str(cwd)),
        !(thread.get("id"@) matches Some(Tree::Str(_))) ==> place_of(thread) == Err::<(Seq<char>, Seq<char>), FailureView>(
            FailureView::Internal("Codex thread omitted id"@),
        ),
        thread.get("id"@) == Some(Tree::Str(id)) && !(thread.get("cwd"@) matches Some(Tree::Str(_))) ==> place_of(thread)
            == Err::<(Seq<char>, Seq<char>), FailureView>(FailureView::Internal("Codex thread omitted cwd"@)),
        seconds_fit(Some(seconds)) <==> -9_223_372_036_854_775 <= seconds <= 9_223_372_036_854_775,
        seconds_fit(Some(seconds)) ==> millis(Some(seconds), default) == seconds * 1000,
        millis(None, default) == default,
{
}

/// A binding ties the thread to the conversation and the user that it was made for, with what the thread
/// says of itself, and nothing has been read of its history. It is as old as the thread.
pub proof fn a_binding_ties_a_thread_to_its_conversation(
    codex_home: Seq<char>,
    thread: Tree,
    user_id: Seq<char>,
    conversation_id: Seq<char>,
    live_state: Seq<char>,
    now: i64,
    id: Seq<char>,
    cwd: Seq<char>,
    seconds: i64,
)
    requires
        thread.get("id"@) == Some(Tree::Str(id)),
        thread.get("cwd"@) == Some(Tree::Str(cwd)),
    ensures
        bound(codex_home, thread, user_id, conversation_id, live_state, now) matches Ok(row) && {
            &&& row.codex_home == codex_home
            &&& row.thread_id == id
            &&& row.user_id == user_id
            &&& row.conversation_id == conversation_id
            &&& row.cwd == cwd
            &&& row.source == name_of_source(thread.get("source"@))
            &&& row.live_state == live_state
            &&& row.history_cursor is None
            &&& !row.history_complete
            &&& row.history_next_created_at is None
            &&& row.updated_at == now
            &&& thread.get("createdAt"@) is None ==> row.created_at == now
            &&& thread.get("createdAt"@) == Some(Tree::Int(seconds)) && age_fits(thread) ==> row.created_at == seconds * 1000
        },
{
}

/// The turn that runs in a thread is the first of its turns that is in progress.
pub proof fn the_first_turn_in_progress_runs(thread: Tree, turns: Seq<Tree>, at: int, id: Seq<char>)
    requires
        thread.get("turns"@) == Some(Tree::Array(turns)),
    ensures
        0 <= at < turns.len() && turns[at].get("status"@) == Some(Tree::Str("inProgress"@)) && turns[at].get("id"@) == Some(
            Tree::Str(id),
        ) && (forall|i: int|
            0 <= i < at ==> (#[trigger] turns[i]).get("status"@) != Some(Tree::Str("inProgress"@))) ==> running_turn(thread)
            == Some(id),
        (forall|i: int|
            0 <= i < turns.len() ==> (#[trigger] turns[i]).get("status"@) != Some(Tree::Str("inProgress"@)))
            ==> running_turn(thread) is None,
    decreases turns.len(),
{
    if turns.len() > 0 {
        let rest = turns.drop_first();
        assert(forall|i: int| 0 <= i < rest.len() ==> #[trigger] rest[i] == turns[i + 1]);
        the_first_turn_in_progress_runs(Tree::Object(Map::empty().insert("turns"@, Tree::Array(rest))), rest, at - 1, id);
        let other = Tree::Object(Map::empty().insert("turns"@, Tree::Array(rest)));
        assert(other.get("turns"@) == Some(Tree::Array(rest)));
        if turns[0].get("status"@) != Some(Tree::Str("inProgress"@)) {
            assert(running_turn(thread) == running_turn(other));
        }
    }
}

} // verus!
