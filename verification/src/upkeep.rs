//! All conversations together, when one of them takes in what its thread says of itself.
use vstd::prelude::*;

use crate::actions::ActionView;
use crate::bindings::{identities, identity, lemma_of_thread, of_thread, one_row_per_thread};
use crate::json::{i64_in, Tree};
use crate::metadata::{
    a_thread_of_its_own_has_no_parent, describes_alike, description_synced, next_extra, other_members_make_no_difference,
    reading_a_thread_again_changes_nothing, source_synced,
};
use crate::rows::{first_of_user, BindingView, ConversationView};
use crate::subagents::{counted, linked, related, running, summarized, waits_for};
use crate::sync::{family, lemma_found};
use crate::thread::metadata_of;
use crate::wire::{displayed, reads_like};

verus! {

/// No two conversations have the same id.
pub open spec fn ids_differ(rows: Seq<ConversationView>) -> bool {
    forall|i: int, j: int| 0 <= i < j < rows.len() ==> (#[trigger] rows[i]).id != (#[trigger] rows[j]).id
}

/// The conversation with this id is at `i`.
pub open spec fn is_at(rows: Seq<ConversationView>, i: int, id: Seq<char>) -> bool {
    0 <= i < rows.len() && rows[i].id == id
}

/// The conversation with this id, where there is one.
pub open spec fn conversation_in(rows: Seq<ConversationView>, id: Seq<char>) -> Option<ConversationView> {
    if exists|i: int| #[trigger] is_at(rows, i, id) {
        Some(rows[choose|i: int| #[trigger] is_at(rows, i, id)])
    } else {
        None
    }
}

/// The conversations once an action has been done.
pub open spec fn conversations_after_one(rows: Seq<ConversationView>, action: ActionView) -> Seq<ConversationView> {
    match action {
        ActionView::UpdateConversation { conversation_id, update } => rows.map_values(
            |row: ConversationView|
                if row.id == conversation_id {
                    row.updated(update)
                } else {
                    row
                },
        ),
        _ => rows,
    }
}

/// The conversations once a list of actions has been done.
pub open spec fn conversations_after(rows: Seq<ConversationView>, list: Seq<ActionView>) -> Seq<ConversationView>
    decreases list.len(),
{
    if list.len() == 0 {
        rows
    } else {
        conversations_after(conversations_after_one(rows, list[0]), list.drop_first())
    }
}

/// The conversation is one of the user's that is linked to the one with this id. `read` says what is
/// read from a text.
pub open spec fn is_child(read: spec_fn(Seq<char>) -> Tree, row: ConversationView, user_id: Seq<char>, id: Seq<char>) -> bool {
    row.user_id == user_id && read(row.extra).str_at("codex_parent_conversation_id"@) == Some(id)
}

/// The conversations of the user that are linked to the one with this id.
pub open spec fn children_of(
    read: spec_fn(Seq<char>) -> Tree,
    rows: Seq<ConversationView>,
    user_id: Seq<char>,
    id: Seq<char>,
) -> Seq<ConversationView>
    decreases rows.len(),
{
    if rows.len() == 0 {
        Seq::empty()
    } else {
        let before = children_of(read, rows.drop_last(), user_id, id);
        if is_child(read, rows.last(), user_id, id) {
            before.push(rows.last())
        } else {
            before
        }
    }
}

/// What has been done so far, the conversations then, and the documents that were stored as extra
/// data.
pub struct DoneView {
    pub rows: Seq<ConversationView>,
    pub list: Seq<ActionView>,
    pub stored: Seq<Tree>,
}

impl DoneView {
    /// Nothing has been done.
    pub open spec fn nothing(rows: Seq<ConversationView>) -> DoneView {
        DoneView { rows, list: Seq::empty(), stored: Seq::empty() }
    }

    /// A list has been done too, which stores `next` where it does anything.
    pub open spec fn and(self, list: Seq<ActionView>, next: Tree) -> DoneView {
        DoneView {
            rows: conversations_after(self.rows, list),
            list: self.list + list,
            stored: if list.len() > 0 {
                self.stored.push(next)
            } else {
                self.stored
            },
        }
    }
}

/// The sub-agents of a conversation have been counted, where it is there and its extra data takes
/// members.
pub open spec fn counting(read: spec_fn(Seq<char>) -> Tree, done: DoneView, id: Seq<char>) -> DoneView {
    match conversation_in(done.rows, id) {
        Some(row) => {
            let extra = read(row.extra);
            let children = children_of(read, done.rows, row.user_id, id);
            if extra.takes_members() {
                done.and(
                    summarized(extra, row, children),
                    counted(extra, children.len() as i64 as int, running(children) as i64 as int),
                )
            } else {
                done
            }
        },
        None => done,
    }
}

/// A conversation has been linked to that of the thread it was spawned from, where it waits for that.
pub open spec fn linking_one(
    read: spec_fn(Seq<char>) -> Tree,
    done: DoneView,
    parent: BindingView,
    child: BindingView,
) -> DoneView {
    match conversation_in(done.rows, child.conversation_id) {
        Some(row) => if related(parent, child) {
            let extra = read(row.extra);
            done.and(
                linked(extra, parent, child.conversation_id),
                extra.put("codex_parent_conversation_id"@, Tree::Str(parent.conversation_id)),
            )
        } else {
            done
        },
        None => done,
    }
}

/// The conversations of these threads have been linked.
pub open spec fn linking(
    read: spec_fn(Seq<char>) -> Tree,
    done: DoneView,
    parent: BindingView,
    listed: Seq<BindingView>,
) -> DoneView
    decreases listed.len(),
{
    if listed.len() == 0 {
        done
    } else {
        linking(read, linking_one(read, done, parent, listed[0]), parent, listed.drop_first())
    }
}

/// What is asked for of the conversations round another one has been done.
pub open spec fn asked_for(
    read: spec_fn(Seq<char>) -> Tree,
    done: DoneView,
    listed: Seq<BindingView>,
    action: ActionView,
) -> DoneView {
    match action {
        ActionView::LinkSubagents(parent) => counting(
            read,
            linking(read, done, parent, listed),
            parent.conversation_id,
        ),
        ActionView::CountSubagents { conversation_id } => counting(read, done, conversation_id),
        _ => done,
    }
}

/// The conversation that shows the thread that this one was spawned from.
pub open spec fn parent_in(listed: Seq<BindingView>, binding: BindingView, thread: Tree) -> Option<Seq<char>> {
    match metadata_of(thread).parent_thread_id {
        Some(parent) => match first_of_user(of_thread(listed, binding.codex_home, parent), binding.user_id) {
            Some(row) => Some(row.conversation_id),
            None => None,
        },
        None => None,
    }
}

/// A thread that this row binds has been taken in by its conversation, where that is there, and what
/// this asks for has been done too. `listed` are all rows that bind threads, in the order in which
/// they are listed, and `read` says what is read from a text.
pub open spec fn taken_in(
    read: spec_fn(Seq<char>) -> Tree,
    rows: Seq<ConversationView>,
    listed: Seq<BindingView>,
    binding: BindingView,
    thread: Tree,
    now: i64,
) -> DoneView {
    match conversation_in(rows, binding.conversation_id) {
        Some(row) => {
            let parent = parent_in(listed, binding, thread);
            let extra = read(row.extra);
            let sourced = DoneView { list: source_synced(binding, thread, now), ..DoneView::nothing(rows) };
            let done = sourced.and(
                description_synced(extra, row, thread, parent),
                next_extra(extra, row.name, thread, parent),
            );
            let asked = family(metadata_of(thread).role, binding, parent);
            if asked.len() > 0 {
                asked_for(read, done, listed, asked[0])
            } else {
                done
            }
        },
        None => DoneView::nothing(rows),
    }
}

/// The documents are read back, each like it was.
pub open spec fn all_read(read: spec_fn(Seq<char>) -> Tree, stored: Seq<Tree>) -> bool {
    forall|i: int| 0 <= i < stored.len() ==> reads_like(read(displayed(#[trigger] stored[i])), stored[i])
}

/// The same threads are bound to the same conversations.
pub open spec fn same_bindings(a: Seq<BindingView>, b: Seq<BindingView>) -> bool {
    forall|of: (Seq<char>, Seq<char>, Seq<char>, Seq<char>)| #[trigger]
        identities(a).contains(of) <==> identities(b).contains(of)
}

proof fn lemma_conversation_in(rows: Seq<ConversationView>, i: int)
    requires
        ids_differ(rows),
        0 <= i < rows.len(),
    ensures
        conversation_in(rows, rows[i].id) == Some(rows[i]),
{
    assert(is_at(rows, i, rows[i].id));
    let j = choose|j: int| #[trigger] is_at(rows, j, rows[i].id);
    if i < j {
        assert(rows[i].id != rows[j].id);
    } else if j < i {
        assert(rows[j].id != rows[i].id);
    }
}

proof fn lemma_found_in(rows: Seq<ConversationView>, id: Seq<char>) -> (i: int)
    requires
        conversation_in(rows, id) is Some,
    ensures
        0 <= i < rows.len(),
        rows[i].id == id,
        conversation_in(rows, id) == Some(rows[i]),
{
    let i = choose|i: int| #[trigger] is_at(rows, i, id);
    assert(is_at(rows, i, id));
    i
}

/// The same conversations are there, though something else about them may have changed.
spec fn same_ids(a: Seq<ConversationView>, b: Seq<ConversationView>) -> bool {
    &&& a.len() == b.len()
    &&& forall|i: int| 0 <= i < a.len() ==> (#[trigger] b[i]).id == a[i].id
}

proof fn lemma_ids_go_on(a: Seq<ConversationView>, b: Seq<ConversationView>)
    requires
        ids_differ(a),
        same_ids(a, b),
    ensures
        ids_differ(b),
        forall|id: Seq<char>| conversation_in(a, id) is Some <==> #[trigger] conversation_in(b, id) is Some,
{
    assert forall|i: int, j: int| 0 <= i < j < b.len() implies (#[trigger] b[i]).id != (#[trigger] b[j]).id by {
        assert(a[i].id != a[j].id);
    }
    assert forall|id: Seq<char>| conversation_in(a, id) is Some <==> #[trigger] conversation_in(b, id) is Some by {
        if conversation_in(a, id) is Some {
            let i = lemma_found_in(a, id);
            assert(is_at(b, i, id));
        }
        if conversation_in(b, id) is Some {
            let i = lemma_found_in(b, id);
            assert(is_at(a, i, id));
        }
    }
}

/// An update of one conversation, which is then told, changes that one.
proof fn lemma_updated(rows: Seq<ConversationView>, list: Seq<ActionView>, i: int)
    requires
        ids_differ(rows),
        0 <= i < rows.len(),
        list.len() == 2,
        list[0] matches ActionView::UpdateConversation { conversation_id, .. } && conversation_id == rows[i].id,
        list[1] is Broadcast,
    ensures
        conversations_after(rows, list) == rows.update(
            i,
            rows[i].updated(list[0]->UpdateConversation_update),
        ),
{
    reveal_with_fuel(conversations_after, 3);
    let after = conversations_after(rows, list);
    assert(list.drop_first()[0] == list[1]);
    assert(after =~= rows.update(i, rows[i].updated(list[0]->UpdateConversation_update))) by {
        assert forall|j: int| 0 <= j < rows.len() && j != i implies (#[trigger] rows[j]).id != rows[i].id by {
            if j < i {
                assert(rows[j].id != rows[i].id);
            } else {
                assert(rows[i].id != rows[j].id);
            }
        }
    }
}

/// A string, an integer or a missing member is read back as it is, and nothing else is read back as
/// one.
proof fn lemma_read(again: Tree, next: Tree, key: Seq<char>)
    requires
        next is Object,
        reads_like(again, next),
    ensures
        again is Object,
        again.str_at(key) == next.str_at(key),
        i64_in(again.get(key)) == i64_in(next.get(key)),
{
    assert(again->Object_0.contains_key(key) == next->Object_0.contains_key(key));
    if next->Object_0.contains_key(key) {
        let a = again->Object_0[key];
        let b = next->Object_0[key];
        if b is Str || b is Int {
            assert(crate::wire::reads_back(b, 126));
        }
        if a is Str || a is Int {
            assert(crate::wire::reads_back(a, 126));
        }
    }
}

/// The numbers of sub-agents are kept under names of their own.
proof fn lemma_counts_are_apart(extra: Tree, total: int, running: int)
    requires
        extra.takes_members(),
    ensures
        counted(extra, total, running) is Object,
        describes_alike(counted(extra, total, running), extra),
        i64_in(counted(extra, total, running).get("codex_subagent_total_count"@)) == Some(total as i64),
        i64_in(counted(extra, total, running).get("codex_subagent_running_count"@)) == Some(running as i64),
{
    reveal_strlit("codex_subagent_total_count");
    reveal_strlit("codex_subagent_running_count");
    reveal_strlit("codex_subagent_completed_count");
    reveal_strlit("codex_source");
    reveal_strlit("codex_thread_role");
    reveal_strlit("codex_parent_thread_id");
    reveal_strlit("codex_parent_conversation_id");
    reveal_strlit("codex_subagent_kind");
    reveal_strlit("codex_agent_path");
    reveal_strlit("codex_agent_nickname");
    reveal_strlit("codex_agent_role");
    reveal_strlit("codex_agent_depth");
    reveal_strlit("codex_can_accept_direct_input");
    reveal_strlit("codex_auto_title");
    assert("codex_subagent_total_count"@.len() == 26);
    assert("codex_subagent_running_count"@.len() == 28);
    assert("codex_subagent_completed_count"@.len() == 30);
    assert("codex_source"@.len() < 26 && "codex_thread_role"@.len() < 26);
    assert("codex_parent_thread_id"@.len() < 26 && "codex_subagent_kind"@.len() < 26);
    assert("codex_agent_path"@.len() < 26 && "codex_agent_nickname"@.len() < 26);
    assert("codex_agent_role"@.len() < 26 && "codex_agent_depth"@.len() < 26);
    assert("codex_auto_title"@.len() < 26 && "codex_can_accept_direct_input"@.len() == 29);
    assert("codex_parent_conversation_id"@.len() == 28);
    assert("codex_parent_conversation_id"@[6] != "codex_subagent_running_count"@[6]);
}

/// Where the conversations differ in nothing that tells whether they are linked and whether they run,
/// as many of them are linked, and as many of those run.
proof fn lemma_as_many_children(
    read: spec_fn(Seq<char>) -> Tree,
    a: Seq<ConversationView>,
    b: Seq<ConversationView>,
    user_id: Seq<char>,
    id: Seq<char>,
)
    requires
        a.len() == b.len(),
        forall|i: int|
            0 <= i < a.len() ==> (#[trigger] b[i]).status == a[i].status && is_child(read, b[i], user_id, id)
                == is_child(read, a[i], user_id, id),
    ensures
        children_of(read, a, user_id, id).len() == children_of(read, b, user_id, id).len(),
        running(children_of(read, a, user_id, id)) == running(children_of(read, b, user_id, id)),
    decreases a.len(),
{
    if a.len() > 0 {
        let before = children_of(read, a.drop_last(), user_id, id);
        let later = children_of(read, b.drop_last(), user_id, id);
        assert forall|i: int| 0 <= i < a.drop_last().len() implies (#[trigger] b.drop_last()[i]).status
            == a.drop_last()[i].status && is_child(read, b.drop_last()[i], user_id, id) == is_child(
            read,
            a.drop_last()[i],
            user_id,
            id,
        ) by {
            assert(b.drop_last()[i] == b[i] && a.drop_last()[i] == a[i]);
        }
        lemma_as_many_children(read, a.drop_last(), b.drop_last(), user_id, id);
        assert(b[b.len() - 1].status == a[a.len() - 1].status);
        assert(before.push(a.last()).drop_last() =~= before);
        assert(later.push(b.last()).drop_last() =~= later);
    }
}

/// What counting leaves: the conversation that is counted for has the numbers, in which it differs
/// from before if it does at all, and counting again does nothing.
proof fn lemma_counting(read: spec_fn(Seq<char>) -> Tree, done: DoneView, id: Seq<char>)
    requires
        ids_differ(done.rows),
        all_read(read, counting(read, done, id).stored),
    ensures
        ({
            let after = counting(read, done, id);
            &&& same_ids(done.rows, after.rows)
            &&& ids_differ(after.rows)
            &&& forall|i: int| 0 <= i < done.rows.len() ==> #[trigger] after.rows[i] == done.rows[i] || grown(
                read,
                done.rows[i],
                after.rows[i],
            )
            &&& forall|rest: DoneView| rest.rows == after.rows ==> #[trigger] counting(read, rest, id) == rest
        }),
{
    let after = counting(read, done, id);
    if conversation_in(done.rows, id) is Some {
        let at = lemma_found_in(done.rows, id);
        let row = done.rows[at];
        let extra = read(row.extra);
        if extra.takes_members() {
            let children = children_of(read, done.rows, row.user_id, id);
            let total = children.len() as i64 as int;
            let active = running(children) as i64 as int;
            let list = summarized(extra, row, children);
            let next = counted(extra, total, active);
            if list.len() > 0 {
                assert(after.stored[after.stored.len() - 1] == next);
                lemma_updated(done.rows, list, at);
                let again = read(after.rows[at].extra);
                assert(after.rows[at].extra == displayed(next));
                lemma_counts_are_apart(extra, total, active);
                lemma_read(again, next, "codex_subagent_total_count"@);
                lemma_read(again, next, "codex_subagent_running_count"@);
                lemma_read(again, next, "codex_parent_conversation_id"@);
                assert(grown(read, row, after.rows[at]));
                lemma_ids_go_on(done.rows, after.rows);
                lemma_conversation_in(after.rows, at);
                lemma_as_many_children(read, done.rows, after.rows, row.user_id, id);
                let recounted = children_of(read, after.rows, row.user_id, id);
                assert(summarized(again, after.rows[at], recounted).len() == 0);
                assert forall|rest: DoneView| rest.rows == after.rows implies #[trigger] counting(read, rest, id) == rest by {
                    lemma_nothing_more(rest, summarized(again, after.rows[at], recounted), next);
                }
            } else {
                lemma_nothing_more(done, list, next);
                assert forall|rest: DoneView| rest.rows == after.rows implies #[trigger] counting(read, rest, id) == rest by {
                    lemma_nothing_more(rest, list, next);
                }
            }
        }
    }
}

proof fn lemma_nothing_more(done: DoneView, list: Seq<ActionView>, next: Tree)
    requires
        list.len() == 0,
    ensures
        done.and(list, next) == done,
{
    assert(done.list + list =~= done.list);
}

/// A conversation has got the numbers of its sub-agents, and nothing else that is read of it is
/// another than before.
spec fn grown(read: spec_fn(Seq<char>) -> Tree, row: ConversationView, later: ConversationView) -> bool {
    &&& later.id == row.id
    &&& later.user_id == row.user_id
    &&& later.name == row.name
    &&& later.status == row.status
    &&& read(row.extra).takes_members()
    &&& exists|total: int, active: int|
        reads_like(read(later.extra), #[trigger] counted(read(row.extra), total, active))
}

/// A conversation that has grown by numbers has taken in its thread if it had before, and waits for a
/// link if it did before.
proof fn lemma_grown(
    read: spec_fn(Seq<char>) -> Tree,
    row: ConversationView,
    later: ConversationView,
    parent: BindingView,
    thread: Tree,
    parent_conversation_id: Option<Seq<char>>,
)
    requires
        grown(read, row, later),
    ensures
        waits_for(read(later.extra), parent) == waits_for(read(row.extra), parent),
        description_synced(read(row.extra), row, thread, parent_conversation_id).len() == 0 ==> description_synced(
            read(later.extra),
            later,
            thread,
            parent_conversation_id,
        ).len() == 0,
{
    let (total, active) = choose|total: int, active: int|
        reads_like(read(later.extra), #[trigger] counted(read(row.extra), total, active));
    let extra = read(row.extra);
    let again = read(later.extra);
    let next = counted(extra, total, active);
    lemma_counts_are_apart(extra, total, active);
    lemma_read(again, next, "codex_parent_thread_id"@);
    lemma_read(again, next, "codex_parent_conversation_id"@);
    if description_synced(extra, row, thread, parent_conversation_id).len() == 0 {
        other_members_make_no_difference(extra, row, thread, parent_conversation_id, next, again);
    }
}

/// What linking one conversation leaves: those that do not wait are as they were, and the one that is
/// linked does not wait.
proof fn lemma_linking_one(read: spec_fn(Seq<char>) -> Tree, done: DoneView, parent: BindingView, child: BindingView)
    requires
        ids_differ(done.rows),
        all_read(read, linking_one(read, done, parent, child).stored),
    ensures
        ({
            let after = linking_one(read, done, parent, child);
            &&& same_ids(done.rows, after.rows)
            &&& ids_differ(after.rows)
            &&& forall|i: int|
                0 <= i < done.rows.len() && !waits_for(read(done.rows[i].extra), parent) ==> #[trigger] after.rows[i]
                    == done.rows[i]
            &&& forall|i: int|
                0 <= i < done.rows.len() && related(parent, child) && done.rows[i].id == child.conversation_id
                    ==> !waits_for(read((#[trigger] after.rows[i]).extra), parent)
        }),
{
    let after = linking_one(read, done, parent, child);
    if conversation_in(done.rows, child.conversation_id) is Some && related(parent, child) {
        let at = lemma_found_in(done.rows, child.conversation_id);
        let extra = read(done.rows[at].extra);
        let next = extra.put("codex_parent_conversation_id"@, Tree::Str(parent.conversation_id));
        let list = linked(extra, parent, child.conversation_id);
        if waits_for(extra, parent) {
            assert(after.stored[after.stored.len() - 1] == next);
            lemma_updated(done.rows, list, at);
            lemma_read(read(after.rows[at].extra), next, "codex_parent_conversation_id"@);
            lemma_ids_go_on(done.rows, after.rows);
        } else {
            lemma_nothing_more(done, list, next);
        }
        assert forall|i: int| 0 <= i < done.rows.len() && done.rows[i].id == child.conversation_id implies i == at by {
            lemma_conversation_in(done.rows, i);
            if i < at {
                assert(done.rows[i].id != done.rows[at].id);
            } else if at < i {
                assert(done.rows[at].id != done.rows[i].id);
            }
        }
    } else {
        assert forall|i: int|
            0 <= i < done.rows.len() && related(parent, child) && done.rows[i].id == child.conversation_id implies !waits_for(
            read((#[trigger] after.rows[i]).extra),
            parent,
        ) by {
            lemma_conversation_in(done.rows, i);
        }
    }
}

/// What has been stored stays stored.
proof fn lemma_stored_grows(read: spec_fn(Seq<char>) -> Tree, done: DoneView, parent: BindingView, listed: Seq<BindingView>)
    requires
        all_read(read, linking(read, done, parent, listed).stored),
    ensures
        all_read(read, done.stored),
    decreases listed.len(),
{
    if listed.len() > 0 {
        let next = linking_one(read, done, parent, listed[0]);
        lemma_stored_grows(read, next, parent, listed.drop_first());
        assert forall|i: int| 0 <= i < done.stored.len() implies reads_like(
            read(displayed(#[trigger] done.stored[i])),
            done.stored[i],
        ) by {
            assert(next.stored[i] == done.stored[i]);
        }
    }
}

/// None of the conversations that these rows bind waits for a link.
spec fn none_waits(
    read: spec_fn(Seq<char>) -> Tree,
    rows: Seq<ConversationView>,
    parent: BindingView,
    listed: Seq<BindingView>,
) -> bool {
    forall|i: int, j: int|
        0 <= i < rows.len() && 0 <= j < listed.len() && related(parent, listed[j]) && (#[trigger] rows[i]).id == (
        #[trigger] listed[j]).conversation_id ==> !waits_for(read(rows[i].extra), parent)
}

/// What linking leaves: those that did not wait are as they were, and none that is bound waits.
proof fn lemma_linking(read: spec_fn(Seq<char>) -> Tree, done: DoneView, parent: BindingView, listed: Seq<BindingView>)
    requires
        ids_differ(done.rows),
        all_read(read, linking(read, done, parent, listed).stored),
    ensures
        ({
            let after = linking(read, done, parent, listed);
            &&& same_ids(done.rows, after.rows)
            &&& ids_differ(after.rows)
            &&& forall|i: int|
                0 <= i < done.rows.len() && !waits_for(read(done.rows[i].extra), parent) ==> #[trigger] after.rows[i]
                    == done.rows[i]
            &&& none_waits(read, after.rows, parent, listed)
        }),
    decreases listed.len(),
{
    if listed.len() > 0 {
        let next = linking_one(read, done, parent, listed[0]);
        let rest = listed.drop_first();
        let after = linking(read, next, parent, rest);
        lemma_stored_grows(read, next, parent, rest);
        lemma_linking_one(read, done, parent, listed[0]);
        lemma_linking(read, next, parent, rest);
        assert forall|i: int| 0 <= i < done.rows.len() implies (#[trigger] after.rows[i]).id == done.rows[i].id by {
            assert(next.rows[i].id == done.rows[i].id);
        }
        assert forall|i: int| 0 <= i < done.rows.len() && !waits_for(read(done.rows[i].extra), parent) implies #[trigger] after.rows[i]
            == done.rows[i] by {
            assert(next.rows[i] == done.rows[i]);
        }
        assert forall|i: int, j: int|
            0 <= i < after.rows.len() && 0 <= j < listed.len() && related(parent, listed[j]) && (
            #[trigger] after.rows[i]).id == (#[trigger] listed[j]).conversation_id implies !waits_for(
            read(after.rows[i].extra),
            parent,
        ) by {
            if j == 0 {
                assert(next.rows[i].id == done.rows[i].id);
                assert(!waits_for(read(next.rows[i].extra), parent));
            } else {
                assert(rest[j - 1] == listed[j]);
            }
        }
    }
}

/// Where none waits, linking does nothing.
proof fn lemma_linking_nothing(
    read: spec_fn(Seq<char>) -> Tree,
    done: DoneView,
    parent: BindingView,
    listed: Seq<BindingView>,
)
    requires
        none_waits(read, done.rows, parent, listed),
    ensures
        linking(read, done, parent, listed) == done,
    decreases listed.len(),
{
    if listed.len() > 0 {
        let child = listed[0];
        if conversation_in(done.rows, child.conversation_id) is Some && related(parent, child) {
            let at = lemma_found_in(done.rows, child.conversation_id);
            let extra = read(done.rows[at].extra);
            assert(done.rows[at].id == listed[0].conversation_id);
            assert(!waits_for(extra, parent));
            lemma_nothing_more(
                done,
                linked(extra, parent, child.conversation_id),
                extra.put("codex_parent_conversation_id"@, Tree::Str(parent.conversation_id)),
            );
        }
        let rest = listed.drop_first();
        assert forall|i: int, j: int|
            0 <= i < done.rows.len() && 0 <= j < rest.len() && related(parent, rest[j]) && (#[trigger] done.rows[i]).id
                == (#[trigger] rest[j]).conversation_id implies !waits_for(read(done.rows[i].extra), parent) by {
            assert(rest[j] == listed[j + 1]);
        }
        lemma_linking_nothing(read, done, parent, rest);
    }
}

/// Rows that bind the same threads to the same conversations, one for each thread of a user, give the
/// same parent.
proof fn lemma_parent_in(a: Seq<BindingView>, b: Seq<BindingView>, binding: BindingView, thread: Tree)
    requires
        same_bindings(a, b),
        one_row_per_thread(b),
    ensures
        parent_in(a, binding, thread) == parent_in(b, binding, thread),
{
    match metadata_of(thread).parent_thread_id {
        Some(parent) => {
            let x = of_thread(a, binding.codex_home, parent);
            let y = of_thread(b, binding.codex_home, parent);
            lemma_of_thread(a, binding.codex_home, parent);
            lemma_of_thread(b, binding.codex_home, parent);
            lemma_found(x, binding.user_id);
            lemma_found(y, binding.user_id);
            match first_of_user(x, binding.user_id) {
                Some(row) => {
                    let j = lemma_counterpart(a, b, row);
                    assert(b.contains(b[j]));
                    assert(y.contains(b[j]));
                    let k = choose|k: int| 0 <= k < y.len() && y[k] == b[j];
                    assert(y[k].user_id == binding.user_id);
                    let found = first_of_user(y, binding.user_id)->0;
                    assert(y.contains(found));
                    let n = choose|n: int| 0 <= n < b.len() && b[n] == found;
                    assert(b[n].same_thread(b[j]) && b[j].same_thread(b[n]));
                    if n < j {
                        assert(!b[n].same_thread(b[j]));
                    } else if j < n {
                        assert(!b[j].same_thread(b[n]));
                    }
                },
                None => {
                    match first_of_user(y, binding.user_id) {
                        Some(row) => {
                            let j = lemma_counterpart(b, a, row);
                            assert(a.contains(a[j]));
                            assert(x.contains(a[j]));
                            let k = choose|k: int| 0 <= k < x.len() && x[k] == a[j];
                            assert(x[k].user_id != binding.user_id);
                        },
                        None => {},
                    }
                },
            }
        },
        None => {},
    }
}

/// The row that binds the same thread to the same conversation.
proof fn lemma_counterpart(a: Seq<BindingView>, b: Seq<BindingView>, row: BindingView) -> (j: int)
    requires
        forall|of: (Seq<char>, Seq<char>, Seq<char>, Seq<char>)| #[trigger]
            identities(a).contains(of) ==> identities(b).contains(of),
        a.contains(row),
    ensures
        0 <= j < b.len(),
        identity(b[j]) == identity(row),
{
    let i = choose|i: int| 0 <= i < a.len() && a[i] == row;
    assert(identities(a)[i] == identity(row));
    assert(identities(a).contains(identity(row)));
    let j = choose|j: int| 0 <= j < identities(b).len() && identities(b)[j] == identity(row);
    assert(identities(b)[j] == identity(b[j]));
    j
}

/// What the first part leaves: the conversation has taken in the thread, and no other has changed.
proof fn lemma_described_at(
    read: spec_fn(Seq<char>) -> Tree,
    rows: Seq<ConversationView>,
    at: int,
    sourced: DoneView,
    thread: Tree,
    parent: Option<Seq<char>>,
)
    requires
        ids_differ(rows),
        0 <= at < rows.len(),
        sourced.rows == rows,
        read(rows[at].extra).takes_members(),
        all_read(
            read,
            sourced.and(
                description_synced(read(rows[at].extra), rows[at], thread, parent),
                next_extra(read(rows[at].extra), rows[at].name, thread, parent),
            ).stored,
        ),
    ensures
        ({
            let done = sourced.and(
                description_synced(read(rows[at].extra), rows[at], thread, parent),
                next_extra(read(rows[at].extra), rows[at].name, thread, parent),
            );
            &&& same_ids(rows, done.rows)
            &&& ids_differ(done.rows)
            &&& read(done.rows[at].extra).takes_members()
            &&& description_synced(read(done.rows[at].extra), done.rows[at], thread, parent).len() == 0
        }),
{
    let row = rows[at];
    let extra = read(row.extra);
    let list = description_synced(extra, row, thread, parent);
    let next = next_extra(extra, row.name, thread, parent);
    let done = sourced.and(list, next);
    if list.len() > 0 {
        assert(done.stored[done.stored.len() - 1] == next);
        lemma_updated(rows, list, at);
        let again = read(done.rows[at].extra);
        assert(done.rows[at].extra == displayed(next));
        reading_a_thread_again_changes_nothing(extra, row, thread, parent, again);
        lemma_takes_members(extra, row.name, thread, parent, again);
        lemma_ids_go_on(rows, done.rows);
    } else {
        lemma_nothing_more(sourced, list, next);
    }
}

proof fn lemma_takes_members(
    extra: Tree,
    name: Seq<char>,
    thread: Tree,
    parent: Option<Seq<char>>,
    again: Tree,
)
    requires
        extra.takes_members(),
        reads_like(again, next_extra(extra, name, thread, parent)),
    ensures
        again.takes_members(),
{
    reveal(crate::metadata::described);
}

/// Once a conversation has taken in a thread, and what that asks for of the conversations round it
/// has been done, taking in the same thread again updates no conversation and tells nobody: at most
/// the binding is stored again. `read` says what is read from a text, and each document that was
/// stored is read back like it was; `relisted` are the rows that bind threads when they are listed
/// again, in whatever order.
pub proof fn taking_in_a_thread_again_changes_nothing(
    read: spec_fn(Seq<char>) -> Tree,
    rows: Seq<ConversationView>,
    listed: Seq<BindingView>,
    relisted: Seq<BindingView>,
    binding: BindingView,
    thread: Tree,
    now: i64,
    later: i64,
)
    requires
        ids_differ(rows),
        one_row_per_thread(relisted),
        same_bindings(listed, relisted),
        conversation_in(rows, binding.conversation_id) matches Some(row) ==> read(row.extra).takes_members(),
        all_read(read, taken_in(read, rows, listed, binding, thread, now).stored),
    ensures
        ({
            let once = taken_in(read, rows, listed, binding, thread, now);
            let twice = taken_in(read, once.rows, relisted, binding, thread, later);
            &&& twice.rows == once.rows
            &&& twice.stored == Seq::<Tree>::empty()
            &&& forall|i: int|
                0 <= i < twice.list.len() ==> !((#[trigger] twice.list[i]) is UpdateConversation) && !(twice.list[i] is Broadcast)
            &&& twice.list.len() > 0 ==> twice.list == source_synced(binding, thread, later)
        }),
{
    let once = taken_in(read, rows, listed, binding, thread, now);
    let twice = taken_in(read, once.rows, relisted, binding, thread, later);
    if conversation_in(rows, binding.conversation_id) is Some {
        let at = lemma_found_in(rows, binding.conversation_id);
        let row = rows[at];
        let extra = read(row.extra);
        let parent = parent_in(listed, binding, thread);
        let role = metadata_of(thread).role;
        let sourced = DoneView { list: source_synced(binding, thread, now), ..DoneView::nothing(rows) };
        let done = sourced.and(
            description_synced(extra, row, thread, parent),
            next_extra(extra, row.name, thread, parent),
        );
        let asked = family(role, binding, parent);
        lemma_parent_in(listed, relisted, binding, thread);
        if role == "root"@ {
            let tied = linking(read, done, binding, listed);
            assert(asked[0] == ActionView::LinkSubagents(binding));
            assert(once == counting(read, tied, binding.conversation_id));
            lemma_stored_before(read, tied, once);
            lemma_stored_grows(read, done, binding, listed);
            lemma_described_at(read, rows, at, sourced, thread, parent);
            a_thread_of_its_own_has_no_parent(read(done.rows[at].extra), done.rows[at], thread, parent);
            lemma_linking(read, done, binding, listed);
            assert(!waits_for(read(done.rows[at].extra), binding));
            assert(tied.rows[at] == done.rows[at]);
            lemma_counting(read, tied, binding.conversation_id);
            lemma_still_taken_in(read, tied.rows, once.rows, at, binding, thread, parent);
            lemma_none_waits_on(read, tied.rows, once.rows, binding, listed, relisted, thread, parent);
        } else {
            match parent {
                Some(id) => {
                    assert(once == counting(read, done, id));
                    lemma_stored_before(read, done, once);
                    lemma_described_at(read, rows, at, sourced, thread, parent);
                    lemma_counting(read, done, id);
                    lemma_still_taken_in(read, done.rows, once.rows, at, binding, thread, parent);
                },
                None => {
                    assert(once == done);
                    lemma_described_at(read, rows, at, sourced, thread, parent);
                },
            }
        }
        assert(once.rows[at].id == binding.conversation_id);
        lemma_conversation_in(once.rows, at);
        let again = read(once.rows[at].extra);
        let resourced = DoneView { list: source_synced(binding, thread, later), ..DoneView::nothing(once.rows) };
        lemma_nothing_more(
            resourced,
            description_synced(again, once.rows[at], thread, parent),
            next_extra(again, once.rows[at].name, thread, parent),
        );
        if role == "root"@ {
            lemma_linking_nothing(read, resourced, binding, relisted);
        }
        assert(twice == resourced);
    }
}

/// What was stored before a conversation's sub-agents were counted is read back too.
proof fn lemma_stored_before(read: spec_fn(Seq<char>) -> Tree, done: DoneView, after: DoneView)
    requires
        all_read(read, after.stored),
        exists|id: Seq<char>| after == #[trigger] counting(read, done, id),
    ensures
        all_read(read, done.stored),
{
    assert forall|i: int| 0 <= i < done.stored.len() implies reads_like(
        read(displayed(#[trigger] done.stored[i])),
        done.stored[i],
    ) by {
        assert(after.stored[i] == done.stored[i]);
    }
}

/// Where conversations have at most got numbers, one that had taken in its thread has yet.
proof fn lemma_still_taken_in(
    read: spec_fn(Seq<char>) -> Tree,
    rows: Seq<ConversationView>,
    later: Seq<ConversationView>,
    at: int,
    binding: BindingView,
    thread: Tree,
    parent: Option<Seq<char>>,
)
    requires
        0 <= at < rows.len(),
        later[at] == rows[at] || grown(read, rows[at], later[at]),
        description_synced(read(rows[at].extra), rows[at], thread, parent).len() == 0,
    ensures
        description_synced(read(later[at].extra), later[at], thread, parent).len() == 0,
{
    if later[at] != rows[at] {
        lemma_grown(read, rows[at], later[at], binding, thread, parent);
    }
}

/// Where conversations have at most got numbers, none waits if none did, in whatever order they are
/// listed.
proof fn lemma_none_waits_on(
    read: spec_fn(Seq<char>) -> Tree,
    rows: Seq<ConversationView>,
    later: Seq<ConversationView>,
    binding: BindingView,
    listed: Seq<BindingView>,
    relisted: Seq<BindingView>,
    thread: Tree,
    parent: Option<Seq<char>>,
)
    requires
        same_ids(rows, later),
        forall|i: int| 0 <= i < rows.len() ==> #[trigger] later[i] == rows[i] || grown(read, rows[i], later[i]),
        none_waits(read, rows, binding, listed),
        same_bindings(listed, relisted),
    ensures
        none_waits(read, later, binding, relisted),
{
    assert forall|i: int, j: int|
        0 <= i < later.len() && 0 <= j < relisted.len() && related(binding, relisted[j]) && (#[trigger] later[i]).id == (
        #[trigger] relisted[j]).conversation_id implies !waits_for(read(later[i].extra), binding) by {
        assert(relisted.contains(relisted[j]));
        let k = lemma_counterpart(relisted, listed, relisted[j]);
        assert(rows[i].id == listed[k].conversation_id);
        if later[i] != rows[i] {
            lemma_grown(read, rows[i], later[i], binding, thread, parent);
        }
    }
}

} // verus!
