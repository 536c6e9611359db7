//! The rows that bind threads to the conversations that show them, taken together.
use vstd::prelude::*;

use crate::actions::{list_changed, ActionView};
use crate::discovery::{shown_in, DiscoveryView, ReplyView};
use crate::items::or_empty;
use crate::json::Tree;
use crate::metadata::{metadata_synced, source_synced};
use crate::paths::within;
use crate::rows::{
    bindings_of, stored_binding, BindingView, CodexThreadBindingRow, ConversationView, FailureView, WorkspaceView,
};
use crate::session::{next_bind_step, BindStepView};
use crate::subagents::{linked, summarized};
use crate::sync::{
    a_thread_is_shown_once, binding_step, family, live_state, state_synced, turn_synced, BindingStepView,
};
use crate::text::same;
use crate::thread::{bound, metadata_of, place_of, status_of, FetchedView};
use crate::wire::document;

verus! {

/// No thread of a user has two rows.
pub open spec fn one_row_per_thread(rows: Seq<BindingView>) -> bool {
    forall|i: int, j: int|
        0 <= i < j < rows.len() ==> !(#[trigger] rows[i]).same_thread(#[trigger] rows[j])
}

/// Where the row of the same thread is, or the number of the rows where there is none.
pub open spec fn place_in(rows: Seq<BindingView>, row: BindingView) -> int
    decreases rows.len(),
{
    if rows.len() == 0 || row.same_thread(rows[0]) {
        0
    } else {
        1 + place_in(rows.drop_first(), row)
    }
}

/// The row of the same thread, where there is one.
pub open spec fn kept_for(rows: Seq<BindingView>, row: BindingView) -> Option<BindingView> {
    let place = place_in(rows, row);
    if place < rows.len() {
        Some(rows[place])
    } else {
        None
    }
}

/// The row that is kept once `row` has been stored.
pub open spec fn saved(rows: Seq<BindingView>, row: BindingView) -> BindingView {
    row.stored_over(kept_for(rows, row))
}

/// The rows once `row` has been stored: it takes the place of the row of its thread, or comes last.
pub open spec fn stored(rows: Seq<BindingView>, row: BindingView) -> Seq<BindingView> {
    let place = place_in(rows, row);
    if place < rows.len() {
        rows.update(place, saved(rows, row))
    } else {
        rows.push(saved(rows, row))
    }
}

proof fn lemma_place(rows: Seq<BindingView>, row: BindingView)
    ensures
        0 <= place_in(rows, row) <= rows.len(),
        place_in(rows, row) < rows.len() ==> row.same_thread(rows[place_in(rows, row)]),
        forall|i: int| 0 <= i < place_in(rows, row) ==> !row.same_thread(#[trigger] rows[i]),
    decreases rows.len(),
{
    if rows.len() > 0 && !row.same_thread(rows[0]) {
        let rest = rows.drop_first();
        lemma_place(rest, row);
        assert forall|i: int| 0 <= i < place_in(rows, row) implies !row.same_thread(#[trigger] rows[i]) by {
            if i > 0 {
                assert(rows[i] == rest[i - 1]);
            }
        }
    }
}

/// The place is the one where such a row is and before which none is.
proof fn lemma_place_is(rows: Seq<BindingView>, row: BindingView, place: int)
    requires
        0 <= place <= rows.len(),
        place < rows.len() ==> row.same_thread(rows[place]),
        forall|i: int| 0 <= i < place ==> !row.same_thread(#[trigger] rows[i]),
    ensures
        place_in(rows, row) == place,
{
    lemma_place(rows, row);
    let found = place_in(rows, row);
    if found < place {
        assert(!row.same_thread(rows[found]));
    }
}

fn same_thread(a: &CodexThreadBindingRow, b: &CodexThreadBindingRow) -> (r: bool)
    ensures
        r == a@.same_thread(b@),
{
    same(a.user_id.as_str(), b.user_id.as_str()) && same(a.codex_home.as_str(), b.codex_home.as_str()) && same(
        a.thread_id.as_str(),
        b.thread_id.as_str(),
    )
}

/// Stores a row among the rows, and gives back what is kept of it.
pub fn store_binding(rows: &mut Vec<CodexThreadBindingRow>, row: &CodexThreadBindingRow) -> (r: CodexThreadBindingRow)
    ensures
        r@ == saved(bindings_of(old(rows)@), row@),
        bindings_of(final(rows)@) == stored(bindings_of(old(rows)@), row@),
{
    let ghost before = bindings_of(rows@);
    let total: usize = rows.len();
    let mut place: usize = 0;
    while place < total && !same_thread(row, &rows[place])
        invariant
            place <= total,
            total == rows@.len(),
            before == bindings_of(rows@),
            forall|i: int| 0 <= i < place ==> !row@.same_thread(#[trigger] before[i]),
        decreases total - place,
    {
        place = place + 1;
    }
    proof {
        lemma_place_is(before, row@, place as int);
    }
    if place < total {
        let kept = stored_binding(Some(rows[place].clone()), row);
        rows.set(place, kept.clone());
        proof {
            assert(bindings_of(rows@) =~= before.update(place as int, kept@));
        }
        kept
    } else {
        let kept = stored_binding(None, row);
        rows.push(kept.clone());
        proof {
            assert(bindings_of(rows@) =~= before.push(kept@));
        }
        kept
    }
}

/// Storing a row leaves one row for each thread of a user. What is kept of it is the one row of its
/// thread, with its directory, source, state and time; a row that was there keeps its conversation,
/// its age and what was read of the history, and their number is the same; else there is one row
/// more. No other row changes, and storing it again changes nothing.
pub proof fn storing_a_row_changes_no_other(rows: Seq<BindingView>, row: BindingView)
    requires
        one_row_per_thread(rows),
    ensures
        one_row_per_thread(stored(rows, row)),
        stored(rows, row).contains(saved(rows, row)),
        row.same_thread(saved(rows, row)),
        kept_for(stored(rows, row), row) == Some(saved(rows, row)),
        saved(rows, row).cwd == row.cwd,
        saved(rows, row).source == row.source,
        saved(rows, row).live_state == row.live_state,
        saved(rows, row).updated_at == row.updated_at,
        match kept_for(rows, row) {
            Some(kept) => {
                &&& rows.contains(kept)
                &&& row.same_thread(kept)
                &&& saved(rows, row).conversation_id == kept.conversation_id
                &&& saved(rows, row).created_at == kept.created_at
                &&& saved(rows, row).history_cursor == kept.history_cursor
                &&& saved(rows, row).history_complete == kept.history_complete
                &&& saved(rows, row).history_next_created_at == kept.history_next_created_at
                &&& stored(rows, row).len() == rows.len()
            },
            None => {
                &&& forall|i: int| 0 <= i < rows.len() ==> !row.same_thread(#[trigger] rows[i])
                &&& saved(rows, row).conversation_id == row.conversation_id
                &&& saved(rows, row).created_at == row.created_at
                &&& stored(rows, row).len() == rows.len() + 1
            },
        },
        forall|i: int|
            0 <= i < rows.len() && !row.same_thread(rows[i]) ==> #[trigger] stored(rows, row)[i] == rows[i],
        forall|other: BindingView|
            !row.same_thread(other) ==> (#[trigger] stored(rows, row).contains(other) <==> rows.contains(other)),
        stored(stored(rows, row), row) == stored(rows, row),
{
    lemma_place(rows, row);
    let place = place_in(rows, row);
    let after = stored(rows, row);
    assert(after[place] == saved(rows, row));
    assert forall|i: int, j: int| 0 <= i < j < after.len() implies !(#[trigger] after[i]).same_thread(
        #[trigger] after[j],
    ) by {
        if place < rows.len() {
            assert(!rows[i].same_thread(rows[j]));
        } else if j < rows.len() {
            assert(!rows[i].same_thread(rows[j]));
        } else {
            assert(!row.same_thread(rows[i]));
        }
    }
    assert forall|i: int| 0 <= i < place implies !row.same_thread(#[trigger] after[i]) by {
        assert(after[i] == rows[i]);
    }
    lemma_place_is(after, row, place);
    assert(stored(after, row) =~= after);
    assert forall|other: BindingView| !row.same_thread(other) implies (#[trigger] after.contains(other)
        <==> rows.contains(other)) by {
        if after.contains(other) {
            let i = choose|i: int| 0 <= i < after.len() && after[i] == other;
            assert(i != place);
            assert(rows[i] == other);
        }
        if rows.contains(other) {
            let i = choose|i: int| 0 <= i < rows.len() && rows[i] == other;
            assert(i != place);
            assert(after[i] == other);
        }
    }
}

/// The first of the rows that binds the conversation.
pub open spec fn of_conversation(rows: Seq<BindingView>, conversation_id: Seq<char>) -> Option<BindingView>
    decreases rows.len(),
{
    if rows.len() == 0 {
        None
    } else if rows[0].conversation_id == conversation_id {
        Some(rows[0])
    } else {
        of_conversation(rows.drop_first(), conversation_id)
    }
}

proof fn lemma_of_conversation_push(rows: Seq<BindingView>, row: BindingView)
    requires
        of_conversation(rows, row.conversation_id) is None,
    ensures
        of_conversation(rows.push(row), row.conversation_id) == Some(row),
    decreases rows.len(),
{
    if rows.len() > 0 {
        assert(rows.push(row).drop_first() =~= rows.drop_first().push(row));
        lemma_of_conversation_push(rows.drop_first(), row);
    } else {
        assert(rows.push(row)[0] == row);
    }
}

/// Binding a conversation twice gives the same binding: where a row binds it, that row comes back
/// and no thread is started; and once it has been bound to a thread that was started for it, and
/// that no row of the user bound before, the row that was then kept is the one that comes back.
pub proof fn a_conversation_is_bound_once(
    rows: Seq<BindingView>,
    codex_home: Seq<char>,
    thread: Tree,
    user_id: Seq<char>,
    conversation_id: Seq<char>,
    extra: Seq<char>,
    now: i64,
)
    ensures
        of_conversation(rows, conversation_id) matches Some(row) ==> next_bind_step(
            of_conversation(rows, conversation_id),
            extra,
        ) == Ok::<BindStepView, FailureView>(BindStepView::Bound(row)),
        bound(codex_home, thread, user_id, conversation_id, "live"@, now) matches Ok(binding) ==> {
            of_conversation(rows, conversation_id) is None && kept_for(rows, binding) is None ==> {
                &&& of_conversation(stored(rows, binding), conversation_id) == Some(saved(rows, binding))
                &&& next_bind_step(of_conversation(stored(rows, binding), conversation_id), extra) == Ok::<
                    BindStepView,
                    FailureView,
                >(BindStepView::Bound(saved(rows, binding)))
            }
        },
{
    match bound(codex_home, thread, user_id, conversation_id, "live"@, now) {
        Ok(binding) => {
            lemma_place(rows, binding);
            if of_conversation(rows, conversation_id) is None && kept_for(rows, binding) is None {
                lemma_of_conversation_push(rows, saved(rows, binding));
            }
        },
        Err(_) => {},
    }
}

/// The rows once an action has been done. The others change none, nor does what is done for them.
pub open spec fn rows_after_one(rows: Seq<BindingView>, action: ActionView) -> Seq<BindingView> {
    match action {
        ActionView::StoreBinding(row) => stored(rows, row),
        ActionView::SetLiveState { conversation_id, live_state, updated_at } => rows.map_values(
            |row: BindingView|
                if row.conversation_id == conversation_id {
                    row.with_live_state(live_state, updated_at)
                } else {
                    row
                },
        ),
        _ => rows,
    }
}

/// The rows once a list of actions has been done.
pub open spec fn rows_after(rows: Seq<BindingView>, list: Seq<ActionView>) -> Seq<BindingView>
    decreases list.len(),
{
    if list.len() == 0 {
        rows
    } else {
        rows_after(rows_after_one(rows, list[0]), list.drop_first())
    }
}

/// Linking sub-agents and counting them changes no binding.
pub proof fn linking_and_counting_change_no_binding(
    rows: Seq<BindingView>,
    extra: Tree,
    parent: BindingView,
    child_conversation_id: Seq<char>,
    conversation: ConversationView,
    children: Seq<ConversationView>,
)
    ensures
        rows_after(rows, linked(extra, parent, child_conversation_id)) == rows,
        rows_after(rows, summarized(extra, conversation, children)) == rows,
{
    reveal_with_fuel(rows_after, 3);
}

/// Whose thread a row binds, and the conversation that shows it.
pub open spec fn identity(row: BindingView) -> (Seq<char>, Seq<char>, Seq<char>, Seq<char>) {
    (row.user_id, row.codex_home, row.thread_id, row.conversation_id)
}

pub open spec fn identities(rows: Seq<BindingView>) -> Seq<(Seq<char>, Seq<char>, Seq<char>, Seq<char>)> {
    rows.map_values(|row: BindingView| identity(row))
}

/// The rows of a thread.
pub open spec fn of_thread(rows: Seq<BindingView>, codex_home: Seq<char>, thread_id: Seq<char>) -> Seq<BindingView> {
    rows.filter(|row: BindingView| row.codex_home == codex_home && row.thread_id == thread_id)
}

/// What a discovery meets when it shows a thread.
pub struct MetView {
    pub now: i64,
    /// The id that a new conversation gets.
    pub id: Seq<char>,
    /// The conversation of a thread that is bound, where there is one.
    pub conversation: Option<ConversationView>,
    /// The conversation that shows the thread that this one was spawned from, where there is one.
    pub parent_conversation_id: Option<Seq<char>>,
    /// The turn that runs in the conversation.
    pub active_turn: Option<Seq<char>>,
    /// What has become of the conversation when it takes in the thread's state.
    pub described: Option<ConversationView>,
}

/// The directory of a thread with links resolved.
pub open spec fn directory_of(shown: FetchedView) -> Seq<char> {
    match shown.cwd {
        Some(cwd) => cwd,
        None => or_empty(shown.thread.str_at("cwd"@)),
    }
}

/// What is to be done for the binding of a thread that has a place.
pub open spec fn step_for(rows: Seq<BindingView>, codex_home: Seq<char>, workspace: WorkspaceView, shown: FetchedView) -> BindingStepView {
    binding_step(
        of_thread(rows, codex_home, or_empty(shown.thread.str_at("id"@))),
        workspace,
        directory_of(shown),
    )
}

/// What is done to bring the conversation of a thread to the thread's state.
pub open spec fn state_taken_in(conversation_id: Seq<char>, thread: Tree, met: MetView) -> Seq<ActionView> {
    turn_synced(conversation_id, thread, met.active_turn, met.now) + match met.described {
        Some(conversation) => state_synced(document(conversation.extra), conversation, thread, met.now),
        None => Seq::empty(),
    }
}

/// The rows once a discovery of the workspace has shown a thread.
pub open spec fn rows_once_shown(
    rows: Seq<BindingView>,
    codex_home: Seq<char>,
    workspace: WorkspaceView,
    shown: FetchedView,
    met: MetView,
) -> Seq<BindingView> {
    let thread = shown.thread;
    match step_for(rows, codex_home, workspace, shown) {
        BindingStepView::Outside => rows,
        BindingStepView::Bound(row) => {
            let described = match met.conversation {
                Some(conversation) => metadata_synced(
                    document(conversation.extra),
                    conversation,
                    row,
                    thread,
                    met.parent_conversation_id,
                    met.now,
                ),
                None => Seq::empty(),
            };
            rows_after(rows, described + state_taken_in(row.conversation_id, thread, met))
        },
        BindingStepView::Create => match bound(
            codex_home,
            thread,
            workspace.user_id,
            met.id,
            live_state(status_of(thread)),
            met.now,
        ) {
            Ok(binding) => {
                let kept = saved(rows, binding);
                let told = family(metadata_of(thread).role, kept, met.parent_conversation_id).push(
                    list_changed(met.id, "created"@),
                );
                rows_after(stored(rows, binding), told + state_taken_in(kept.conversation_id, thread, met))
            },
            Err(_) => rows,
        },
    }
}

/// The rows once a discovery of the workspace has shown these threads, one after the other. A thread
/// without an id or a directory ends it.
pub open spec fn rows_once_discovered(
    rows: Seq<BindingView>,
    codex_home: Seq<char>,
    workspace: WorkspaceView,
    shown: Seq<FetchedView>,
    met: Seq<MetView>,
) -> Seq<BindingView>
    decreases shown.len(),
{
    if shown.len() == 0 || place_of(shown[0].thread) is Err {
        rows
    } else {
        rows_once_discovered(
            rows_once_shown(rows, codex_home, workspace, shown[0], met[0]),
            codex_home,
            workspace,
            shown.drop_first(),
            met.skip(1),
        )
    }
}

/// The conversations that are made while a discovery of the workspace shows these threads.
pub open spec fn conversations_made(
    rows: Seq<BindingView>,
    codex_home: Seq<char>,
    workspace: WorkspaceView,
    shown: Seq<FetchedView>,
    met: Seq<MetView>,
) -> Seq<Seq<char>>
    decreases shown.len(),
{
    if shown.len() == 0 || place_of(shown[0].thread) is Err {
        Seq::empty()
    } else {
        let later = conversations_made(
            rows_once_shown(rows, codex_home, workspace, shown[0], met[0]),
            codex_home,
            workspace,
            shown.drop_first(),
            met.skip(1),
        );
        if step_for(rows, codex_home, workspace, shown[0]) is Create {
            seq![met[0].id] + later
        } else {
            later
        }
    }
}

/// Rows are there yet, though something else about them may have changed.
spec fn go_on(rows: Seq<BindingView>, later: Seq<BindingView>) -> bool {
    &&& rows.len() <= later.len()
    &&& forall|i: int| 0 <= i < rows.len() ==> identity(#[trigger] later[i]) == identity(rows[i])
}

/// A row binds the thread for the user.
spec fn has_row(rows: Seq<BindingView>, row: BindingView) -> bool {
    exists|i: int| 0 <= i < rows.len() && row.same_thread(#[trigger] rows[i])
}

proof fn lemma_has_row_goes_on(rows: Seq<BindingView>, later: Seq<BindingView>, row: BindingView)
    requires
        has_row(rows, row),
        go_on(rows, later),
    ensures
        has_row(later, row),
{
    let i = choose|i: int| 0 <= i < rows.len() && row.same_thread(#[trigger] rows[i]);
    assert(identity(later[i]) == identity(rows[i]));
    assert(row.same_thread(later[i]));
}

proof fn lemma_one_row_goes_on(rows: Seq<BindingView>, later: Seq<BindingView>)
    requires
        one_row_per_thread(rows),
        go_on(rows, later),
        later.len() == rows.len(),
    ensures
        one_row_per_thread(later),
{
    assert forall|i: int, j: int| 0 <= i < j < later.len() implies !(#[trigger] later[i]).same_thread(
        #[trigger] later[j],
    ) by {
        assert(identity(later[i]) == identity(rows[i]) && identity(later[j]) == identity(rows[j]));
        assert(!rows[i].same_thread(rows[j]));
    }
}

/// A list that stores rows only for threads that have one makes no rows.
proof fn lemma_rows_after(rows: Seq<BindingView>, list: Seq<ActionView>)
    requires
        forall|i: int|
            0 <= i < list.len() ==> ((#[trigger] list[i]) matches ActionView::StoreBinding(row) ==> has_row(rows, row)),
    ensures
        rows_after(rows, list).len() == rows.len(),
        go_on(rows, rows_after(rows, list)),
    decreases list.len(),
{
    if list.len() > 0 {
        let next = rows_after_one(rows, list[0]);
        let rest = list.drop_first();
        match list[0] {
            ActionView::StoreBinding(row) => {
                lemma_place(rows, row);
                let i = choose|i: int| 0 <= i < rows.len() && row.same_thread(#[trigger] rows[i]);
                assert(place_in(rows, row) < rows.len());
            },
            _ => {},
        }
        assert(next.len() == rows.len() && go_on(rows, next));
        assert forall|i: int| 0 <= i < rest.len() implies ((#[trigger] rest[i]) matches ActionView::StoreBinding(row)
            ==> has_row(next, row)) by {
            assert(rest[i] == list[i + 1]);
            match rest[i] {
                ActionView::StoreBinding(row) => {
                    lemma_has_row_goes_on(rows, next, row);
                },
                _ => {},
            }
        }
        lemma_rows_after(next, rest);
        assert forall|i: int| 0 <= i < rows.len() implies identity(#[trigger] rows_after(next, rest)[i]) == identity(
            rows[i],
        ) by {
            assert(identity(next[i]) == identity(rows[i]));
        }
    }
}

/// Where the source of a thread that is bound has changed, storing it leaves the same threads bound to
/// the same conversations, each with one row.
pub proof fn a_new_source_keeps_the_bindings(rows: Seq<BindingView>, binding: BindingView, thread: Tree, now: i64)
    requires
        kept_for(rows, binding) is Some,
    ensures
        identities(rows_after(rows, source_synced(binding, thread, now))) == identities(rows),
        one_row_per_thread(rows) ==> one_row_per_thread(rows_after(rows, source_synced(binding, thread, now))),
{
    let list = source_synced(binding, thread, now);
    let later = rows_after(rows, list);
    lemma_place(rows, binding);
    assert forall|i: int| 0 <= i < list.len() implies ((#[trigger] list[i]) matches ActionView::StoreBinding(row)
        ==> has_row(rows, row)) by {
        assert(list[i]->StoreBinding_0.same_thread(rows[place_in(rows, binding)]));
    }
    lemma_rows_after(rows, list);
    assert(identities(later) =~= identities(rows));
    if one_row_per_thread(rows) {
        lemma_one_row_goes_on(rows, later);
    }
}

pub(crate) proof fn lemma_of_thread(rows: Seq<BindingView>, codex_home: Seq<char>, thread_id: Seq<char>)
    ensures
        forall|row: BindingView| #[trigger]
            of_thread(rows, codex_home, thread_id).contains(row) <==> rows.contains(row) && row.codex_home == codex_home
                && row.thread_id == thread_id,
    decreases rows.len(),
{
    let found = of_thread(rows, codex_home, thread_id);
    let its = |row: BindingView| row.codex_home == codex_home && row.thread_id == thread_id;
    reveal(Seq::filter);
    if rows.len() > 0 {
        let rest = rows.drop_last();
        let before = of_thread(rest, codex_home, thread_id);
        lemma_of_thread(rest, codex_home, thread_id);
        assert forall|row: BindingView| #[trigger] found.contains(row) <==> rows.contains(row) && its(row) by {
            if found.contains(row) {
                let i = choose|i: int| 0 <= i < found.len() && found[i] == row;
                if i < before.len() {
                    assert(before[i] == row);
                    assert(before.contains(row));
                    let j = choose|j: int| 0 <= j < rest.len() && rest[j] == row;
                    assert(rows[j] == row);
                } else {
                    assert(rows[rows.len() - 1] == row);
                }
            }
            if rows.contains(row) && its(row) {
                let j = choose|j: int| 0 <= j < rows.len() && rows[j] == row;
                if j < rest.len() {
                    assert(rest[j] == row);
                    assert(before.contains(row));
                    let i = choose|i: int| 0 <= i < before.len() && before[i] == row;
                    assert(found[i] == row);
                } else {
                    assert(found[found.len() - 1] == row);
                }
            }
        }
    }
}

/// The rows of the thread are what `step_for` goes by: no conversation is made for a thread that a
/// row of the user binds, and a thread that is bound is bound by one of the rows.
proof fn lemma_step_for(rows: Seq<BindingView>, codex_home: Seq<char>, workspace: WorkspaceView, shown: FetchedView)
    ensures
        ({
            let thread_id = or_empty(shown.thread.str_at("id"@));
            &&& step_for(rows, codex_home, workspace, shown) is Create <==> within(
                workspace.root_path,
                directory_of(shown),
                workspace.recursive,
            ) && forall|i: int|
                0 <= i < rows.len() ==> !((#[trigger] rows[i]).user_id == workspace.user_id && rows[i].codex_home
                    == codex_home && rows[i].thread_id == thread_id)
            &&& step_for(rows, codex_home, workspace, shown) matches BindingStepView::Bound(row) ==> rows.contains(row)
        }),
{
    let thread_id = or_empty(shown.thread.str_at("id"@));
    let its = of_thread(rows, codex_home, thread_id);
    lemma_of_thread(rows, codex_home, thread_id);
    a_thread_is_shown_once(its, workspace, directory_of(shown));
    if forall|i: int| 0 <= i < its.len() ==> (#[trigger] its[i]).user_id != workspace.user_id {
        assert forall|i: int| 0 <= i < rows.len() implies !((#[trigger] rows[i]).user_id == workspace.user_id
            && rows[i].codex_home == codex_home && rows[i].thread_id == thread_id) by {
            if rows[i].codex_home == codex_home && rows[i].thread_id == thread_id {
                assert(rows.contains(rows[i]));
                assert(its.contains(rows[i]));
                let j = choose|j: int| 0 <= j < its.len() && its[j] == rows[i];
                assert(its[j].user_id != workspace.user_id);
            }
        }
    } else {
        let j = choose|j: int| 0 <= j < its.len() && (#[trigger] its[j]).user_id == workspace.user_id;
        assert(its.contains(its[j]));
        assert(rows.contains(its[j]));
        let i = choose|i: int| 0 <= i < rows.len() && rows[i] == its[j];
        assert(rows[i].user_id == workspace.user_id && rows[i].codex_home == codex_home && rows[i].thread_id
            == thread_id);
    }
}

/// No thread that the discovery gets to has a conversation to be made for it.
spec fn all_settled(rows: Seq<BindingView>, codex_home: Seq<char>, workspace: WorkspaceView, shown: Seq<FetchedView>) -> bool
    decreases shown.len(),
{
    if shown.len() == 0 || place_of(shown[0].thread) is Err {
        true
    } else {
        &&& !(step_for(rows, codex_home, workspace, shown[0]) is Create)
        &&& all_settled(rows, codex_home, workspace, shown.drop_first())
    }
}

proof fn lemma_settled_goes_on(
    rows: Seq<BindingView>,
    later: Seq<BindingView>,
    codex_home: Seq<char>,
    workspace: WorkspaceView,
    shown: FetchedView,
)
    requires
        go_on(rows, later),
        !(step_for(rows, codex_home, workspace, shown) is Create),
    ensures
        !(step_for(later, codex_home, workspace, shown) is Create),
{
    lemma_step_for(rows, codex_home, workspace, shown);
    lemma_step_for(later, codex_home, workspace, shown);
    let thread_id = or_empty(shown.thread.str_at("id"@));
    if within(workspace.root_path, directory_of(shown), workspace.recursive) {
        let i = choose|i: int|
            0 <= i < rows.len() && (#[trigger] rows[i]).user_id == workspace.user_id && rows[i].codex_home == codex_home
                && rows[i].thread_id == thread_id;
        assert(identity(later[i]) == identity(rows[i]));
    }
}

proof fn lemma_all_settled_goes_on(
    rows: Seq<BindingView>,
    later: Seq<BindingView>,
    codex_home: Seq<char>,
    workspace: WorkspaceView,
    shown: Seq<FetchedView>,
)
    requires
        go_on(rows, later),
        all_settled(rows, codex_home, workspace, shown),
    ensures
        all_settled(later, codex_home, workspace, shown),
    decreases shown.len(),
{
    if shown.len() > 0 && !(place_of(shown[0].thread) is Err) {
        lemma_settled_goes_on(rows, later, codex_home, workspace, shown[0]);
        lemma_all_settled_goes_on(rows, later, codex_home, workspace, shown.drop_first());
    }
}

/// Taking in a thread's state stores no row.
proof fn lemma_state_stores_nothing(conversation_id: Seq<char>, thread: Tree, met: MetView)
    ensures
        forall|i: int|
            0 <= i < state_taken_in(conversation_id, thread, met).len() ==> !(#[trigger] state_taken_in(
                conversation_id,
                thread,
                met,
            )[i] is StoreBinding),
{
}

/// Once a thread has been shown, no conversation is to be made for it, and the rows that were there
/// are there yet; where none was to be made before, there are no others.
proof fn lemma_shown(
    rows: Seq<BindingView>,
    codex_home: Seq<char>,
    workspace: WorkspaceView,
    shown: FetchedView,
    met: MetView,
)
    requires
        place_of(shown.thread) is Ok,
    ensures
        ({
            let later = rows_once_shown(rows, codex_home, workspace, shown, met);
            &&& go_on(rows, later)
            &&& !(step_for(later, codex_home, workspace, shown) is Create)
            &&& !(step_for(rows, codex_home, workspace, shown) is Create) ==> later.len() == rows.len()
            &&& one_row_per_thread(rows) ==> one_row_per_thread(later)
        }),
{
    let thread = shown.thread;
    let later = rows_once_shown(rows, codex_home, workspace, shown, met);
    lemma_step_for(rows, codex_home, workspace, shown);
    match step_for(rows, codex_home, workspace, shown) {
        BindingStepView::Outside => {},
        BindingStepView::Bound(row) => {
            let described = match met.conversation {
                Some(conversation) => metadata_synced(
                    document(conversation.extra),
                    conversation,
                    row,
                    thread,
                    met.parent_conversation_id,
                    met.now,
                ),
                None => Seq::empty(),
            };
            let list = described + state_taken_in(row.conversation_id, thread, met);
            let at = choose|at: int| 0 <= at < rows.len() && rows[at] == row;
            lemma_state_stores_nothing(row.conversation_id, thread, met);
            assert forall|i: int| 0 <= i < list.len() implies ((#[trigger] list[i]) matches ActionView::StoreBinding(
                stored,
            ) ==> has_row(rows, stored)) by {
                if i >= described.len() {
                    assert(list[i] == state_taken_in(row.conversation_id, thread, met)[i - described.len()]);
                }
                match list[i] {
                    ActionView::StoreBinding(stored) => {
                        assert(stored.same_thread(rows[at]));
                    },
                    _ => {},
                }
            }
            lemma_rows_after(rows, list);
            lemma_settled_goes_on(rows, later, codex_home, workspace, shown);
            if one_row_per_thread(rows) {
                lemma_one_row_goes_on(rows, later);
            }
        },
        BindingStepView::Create => {
            let binding = bound(
                codex_home,
                thread,
                workspace.user_id,
                met.id,
                live_state(status_of(thread)),
                met.now,
            )->Ok_0;
            let kept = saved(rows, binding);
            let made = stored(rows, binding);
            let told = family(metadata_of(thread).role, kept, met.parent_conversation_id).push(
                list_changed(met.id, "created"@),
            );
            let list = told + state_taken_in(kept.conversation_id, thread, met);
            lemma_place(rows, binding);
            lemma_state_stores_nothing(kept.conversation_id, thread, met);
            assert forall|i: int| 0 <= i < list.len() implies ((#[trigger] list[i]) matches ActionView::StoreBinding(
                stored,
            ) ==> has_row(made, stored)) by {
                if i >= told.len() {
                    assert(list[i] == state_taken_in(kept.conversation_id, thread, met)[i - told.len()]);
                }
            }
            lemma_rows_after(made, list);
            assert(go_on(rows, made));
            assert forall|i: int| 0 <= i < rows.len() implies identity(#[trigger] later[i]) == identity(rows[i]) by {
                assert(identity(made[i]) == identity(rows[i]));
            }
            let place = place_in(rows, binding);
            assert(made[place] == kept);
            lemma_step_for(made, codex_home, workspace, shown);
            lemma_settled_goes_on(made, later, codex_home, workspace, shown);
            if one_row_per_thread(rows) {
                storing_a_row_changes_no_other(rows, binding);
                lemma_one_row_goes_on(made, later);
            }
        },
    }
}

/// What a discovery has shown is settled, and the rows that were there are there yet, one for each
/// thread of a user.
proof fn lemma_discovered(
    rows: Seq<BindingView>,
    codex_home: Seq<char>,
    workspace: WorkspaceView,
    shown: Seq<FetchedView>,
    met: Seq<MetView>,
)
    ensures
        go_on(rows, rows_once_discovered(rows, codex_home, workspace, shown, met)),
        all_settled(
            rows_once_discovered(rows, codex_home, workspace, shown, met),
            codex_home,
            workspace,
            shown,
        ),
        one_row_per_thread(rows) ==> one_row_per_thread(
            rows_once_discovered(rows, codex_home, workspace, shown, met),
        ),
    decreases shown.len(),
{
    if shown.len() > 0 && !(place_of(shown[0].thread) is Err) {
        let next = rows_once_shown(rows, codex_home, workspace, shown[0], met[0]);
        let last = rows_once_discovered(next, codex_home, workspace, shown.drop_first(), met.skip(1));
        lemma_shown(rows, codex_home, workspace, shown[0], met[0]);
        lemma_discovered(next, codex_home, workspace, shown.drop_first(), met.skip(1));
        lemma_settled_goes_on(next, last, codex_home, workspace, shown[0]);
        assert forall|i: int| 0 <= i < rows.len() implies identity(#[trigger] last[i]) == identity(rows[i]) by {
            assert(identity(next[i]) == identity(rows[i]));
        }
    }
}

proof fn lemma_settled_makes_nothing(
    rows: Seq<BindingView>,
    codex_home: Seq<char>,
    workspace: WorkspaceView,
    shown: Seq<FetchedView>,
    met: Seq<MetView>,
)
    requires
        all_settled(rows, codex_home, workspace, shown),
    ensures
        conversations_made(rows, codex_home, workspace, shown, met) == Seq::<Seq<char>>::empty(),
        rows_once_discovered(rows, codex_home, workspace, shown, met).len() == rows.len(),
    decreases shown.len(),
{
    if shown.len() > 0 && !(place_of(shown[0].thread) is Err) {
        let next = rows_once_shown(rows, codex_home, workspace, shown[0], met[0]);
        lemma_shown(rows, codex_home, workspace, shown[0], met[0]);
        lemma_all_settled_goes_on(rows, next, codex_home, workspace, shown.drop_first());
        lemma_settled_makes_nothing(next, codex_home, workspace, shown.drop_first(), met.skip(1));
    }
}

/// A second discovery of a workspace, with the same replies, makes no conversation, and the same
/// threads are then bound to the same conversations, whatever else either of them meets.
pub proof fn a_second_discovery_makes_nothing(
    rows: Seq<BindingView>,
    codex_home: Seq<char>,
    workspace: WorkspaceView,
    replies: Seq<ReplyView>,
    first: Seq<MetView>,
    second: Seq<MetView>,
)
    ensures
        ({
            let shown = shown_in(DiscoveryView::fresh(workspace), replies);
            let once = rows_once_discovered(rows, codex_home, workspace, shown, first);
            let twice = rows_once_discovered(once, codex_home, workspace, shown, second);
            &&& conversations_made(once, codex_home, workspace, shown, second) == Seq::<Seq<char>>::empty()
            &&& identities(twice) == identities(once)
        }),
{
    let shown = shown_in(DiscoveryView::fresh(workspace), replies);
    let once = rows_once_discovered(rows, codex_home, workspace, shown, first);
    let twice = rows_once_discovered(once, codex_home, workspace, shown, second);
    lemma_discovered(rows, codex_home, workspace, shown, first);
    lemma_discovered(once, codex_home, workspace, shown, second);
    lemma_settled_makes_nothing(once, codex_home, workspace, shown, second);
    assert(identities(twice) =~= identities(once));
}

/// A discovery takes no binding away: what was bound before stays bound to the same conversation,
/// and each thread of a user stays with one row.
pub proof fn a_discovery_takes_no_binding_away(
    rows: Seq<BindingView>,
    codex_home: Seq<char>,
    workspace: WorkspaceView,
    replies: Seq<ReplyView>,
    met: Seq<MetView>,
)
    ensures
        ({
            let shown = shown_in(DiscoveryView::fresh(workspace), replies);
            let later = rows_once_discovered(rows, codex_home, workspace, shown, met);
            &&& rows.len() <= later.len()
            &&& forall|i: int| 0 <= i < rows.len() ==> identity(#[trigger] later[i]) == identity(rows[i])
            &&& one_row_per_thread(rows) ==> one_row_per_thread(later)
        }),
{
    let shown = shown_in(DiscoveryView::fresh(workspace), replies);
    lemma_discovered(rows, codex_home, workspace, shown, met);
}

} // verus!
