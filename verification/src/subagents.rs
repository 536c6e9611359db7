//! The sub-agents of a conversation.
use vstd::prelude::*;

use crate::actions::{actions, broadcast_list_changed, list_changed, Action, ActionList, ActionView};
use crate::json::{i64_in, Json, Tree};
use crate::rows::{
    BindingView, CodexThreadBindingRow, ConversationRow, ConversationRowUpdate, ConversationView, UpdateView,
};
use crate::sync::{opt_actions, readable_extra};
use crate::text::{as_deref, equals, same};
use crate::thread::i64_at;
use crate::wire::{displayed, document, is_shallow, parse_or_empty, print, reads_like};

verus! {

/// The extra data of a conversation changes, and nothing else.
pub open spec fn extra_changes(conversation_id: Seq<char>, extra: Tree, updated_at: Option<i64>) -> ActionView {
    ActionView::UpdateConversation {
        conversation_id,
        update: UpdateView { name: None, extra: Some(displayed(extra)), status: None, updated_at },
    }
}

pub(crate) fn change_extra(conversation_id: &str, extra: &Json, updated_at: Option<i64>) -> (r: Action)
    ensures
        r@ == extra_changes(conversation_id@, extra@, updated_at),
        is_shallow(extra@) ==> r@.stores_extra(extra@),
{
    Action::UpdateConversation {
        conversation_id: conversation_id.to_owned(),
        update: ConversationRowUpdate { name: None, extra: Some(print(extra)), status: None, updated_at },
    }
}

/// The two threads are of the same user and the same home.
pub open spec fn related(parent: BindingView, child: BindingView) -> bool {
    child.user_id == parent.user_id && child.codex_home == parent.codex_home
}

/// Whether two threads are of the same user and the same home.
pub fn are_related(parent: &CodexThreadBindingRow, child: &CodexThreadBindingRow) -> (r: bool)
    ensures
        r == related(parent@, child@),
{
    same(child.user_id.as_str(), parent.user_id.as_str()) && same(
        child.codex_home.as_str(),
        parent.codex_home.as_str(),
    )
}

/// The extra data names the parent's thread, and not yet its conversation.
pub open spec fn waits_for(extra: Tree, parent: BindingView) -> bool {
    extra.str_at("codex_parent_thread_id"@) == Some(parent.thread_id) && extra.str_at(
        "codex_parent_conversation_id"@,
    ) != Some(parent.conversation_id)
}

/// What links a conversation to the one that shows the thread it was spawned from.
pub open spec fn linked(extra: Tree, parent: BindingView, child_conversation_id: Seq<char>) -> Seq<ActionView> {
    if waits_for(extra, parent) {
        seq![
            extra_changes(
                child_conversation_id,
                extra.put("codex_parent_conversation_id"@, Tree::Str(parent.conversation_id)),
                None,
            ),
            list_changed(child_conversation_id, "updated"@),
        ]
    } else {
        Seq::empty()
    }
}

/// What links a conversation, whose extra data is given, to the one that shows the thread it was
/// spawned from.
pub fn link_child(extra: Json, parent: &CodexThreadBindingRow, child_conversation_id: &str) -> (r: Vec<Action>)
    ensures
        actions(r@) == linked(extra@, parent@, child_conversation_id@),
        waits_for(extra@, parent@) && is_shallow(extra@) ==> actions(r@)[0].stores_extra(
            extra@.put("codex_parent_conversation_id"@, Tree::Str(parent@.conversation_id)),
        ),
{
    proof {
        broadcast use crate::wire::a_document_stays_shallow_with_a_member;

    }
    if !equals(extra.str_at("codex_parent_thread_id"), parent.thread_id.as_str()) || equals(
        extra.str_at("codex_parent_conversation_id"),
        parent.conversation_id.as_str(),
    ) {
        return ActionList::new().done();
    }
    let next = extra.put("codex_parent_conversation_id", Json::str(parent.conversation_id.as_str()));
    ActionList::new().and(change_extra(child_conversation_id, &next, None)).and(
        broadcast_list_changed(child_conversation_id, "updated"),
    ).done()
}

/// What links a conversation to the one that shows the thread it was spawned from.
pub fn relink_subagent(parent: &CodexThreadBindingRow, child: &CodexThreadBindingRow, conversation: &ConversationRow) -> (r: Vec<
    Action,
>)
    ensures
        actions(r@) == linked(document(conversation.extra@), parent@, child.conversation_id@),
        waits_for(document(conversation.extra@), parent@) ==> actions(r@)[0].stores_extra(
            document(conversation.extra@).put(
                "codex_parent_conversation_id"@,
                Tree::Str(parent@.conversation_id),
            ),
        ),
{
    link_child(parse_or_empty(conversation.extra.as_str()), parent, child.conversation_id.as_str())
}

/// Once a conversation is linked to its parent's, linking it again changes nothing. `again` is what
/// is read back of the extra data.
pub proof fn linking_twice_is_linking_once(
    extra: Tree,
    parent: BindingView,
    child_conversation_id: Seq<char>,
    again: Tree,
)
    requires
        waits_for(extra, parent),
        reads_like(again, extra.put("codex_parent_conversation_id"@, Tree::Str(parent.conversation_id))),
    ensures
        linked(again, parent, child_conversation_id) == Seq::<ActionView>::empty(),
{
    let next = extra.put("codex_parent_conversation_id"@, Tree::Str(parent.conversation_id));
    assert(next->Object_0.contains_key("codex_parent_conversation_id"@));
}

/// How many of the conversations are running.
pub open spec fn running(children: Seq<ConversationView>) -> nat
    decreases children.len(),
{
    if children.len() == 0 {
        0
    } else {
        running(children.drop_last()) + if children.last().status == Some("running"@) {
            1nat
        } else {
            0nat
        }
    }
}

/// No more conversations are running than there are.
pub proof fn no_more_run_than_there_are(children: Seq<ConversationView>)
    ensures
        running(children) <= children.len(),
    decreases children.len(),
{
    if children.len() > 0 {
        no_more_run_than_there_are(children.drop_last());
    }
}

/// The latest time that one of the conversations, or the one they belong to, was changed.
pub open spec fn latest(children: Seq<ConversationView>, own: i64) -> i64
    decreases children.len(),
{
    if children.len() == 0 {
        own
    } else {
        let before = latest(children.drop_last(), own);
        if before < children.last().updated_at {
            children.last().updated_at
        } else {
            before
        }
    }
}

pub open spec fn conversations(rows: Seq<ConversationRow>) -> Seq<ConversationView> {
    rows.map_values(|row: ConversationRow| row@)
}

/// With the numbers of sub-agents: all of them, those that run, and those that do not.
pub open spec fn counted(extra: Tree, total: int, running: int) -> Tree {
    extra.put("codex_subagent_total_count"@, Tree::Int(total as i64)).put(
        "codex_subagent_running_count"@,
        Tree::Int(running as i64),
    ).put("codex_subagent_completed_count"@, Tree::Int((total - running) as i64))
}

/// What is done when the sub-agents of a conversation are counted: where the number of them, or of
/// those that run, is another than before, it is stored and told.
pub open spec fn summarized(extra: Tree, parent: ConversationView, children: Seq<ConversationView>) -> Seq<ActionView> {
    let total = children.len() as i64;
    let active = running(children) as i64;
    if i64_in(extra.get("codex_subagent_total_count"@)) != Some(total) || i64_in(
        extra.get("codex_subagent_running_count"@),
    ) != Some(active) {
        seq![
            extra_changes(
                parent.id,
                counted(extra, total as int, active as int),
                Some(latest(children, parent.updated_at)),
            ),
            list_changed(parent.id, "updated"@),
        ]
    } else {
        Seq::empty()
    }
}

/// What is done when the sub-agents of a conversation, whose extra data is given, are counted.
pub fn summarize(extra: Json, parent: &ConversationRow, children: &Vec<ConversationRow>) -> (r: Vec<Action>)
    requires
        extra@.takes_members(),
        children@.len() <= i64::MAX,
    ensures
        actions(r@) == summarized(extra@, parent@, conversations(children@)),
        r@.len() > 0 && is_shallow(extra@) ==> actions(r@)[0].stores_extra(
            counted(extra@, children@.len() as int, running(conversations(children@)) as int),
        ),
{
    proof {
        broadcast use crate::wire::a_document_stays_shallow_with_a_member;

    }
    let ghost all = conversations(children@);
    let mut total: i64 = 0;
    let mut active: i64 = 0;
    let mut latest_child_at: i64 = parent.updated_at;
    let mut i: usize = 0;
    while i < children.len()
        invariant
            i <= children@.len(),
            children@.len() <= i64::MAX,
            all == conversations(children@),
            total == i,
            0 <= active <= i,
            active == running(all.take(i as int)),
            latest_child_at == latest(all.take(i as int), parent.updated_at),
        decreases children@.len() - i,
    {
        proof {
            assert(all.take(i + 1).drop_last() =~= all.take(i as int));
            assert(all.take(i + 1).last() == children@[i as int]@);
        }
        total = total + 1;
        if equals(as_deref(&children[i].status), "running") {
            active = active + 1;
        }
        if latest_child_at < children[i].updated_at {
            latest_child_at = children[i].updated_at;
        }
        i = i + 1;
    }
    proof {
        assert(all.take(i as int) =~= all);
    }
    let same_total = match i64_at(&extra, "codex_subagent_total_count") {
        Some(count) => count == total,
        None => false,
    };
    let same_active = match i64_at(&extra, "codex_subagent_running_count") {
        Some(count) => count == active,
        None => false,
    };
    if same_total && same_active {
        return ActionList::new().done();
    }
    let next = extra.put("codex_subagent_total_count", Json::Int(total)).put(
        "codex_subagent_running_count",
        Json::Int(active),
    ).put("codex_subagent_completed_count", Json::Int(total - active));
    ActionList::new().and(change_extra(parent.id.as_str(), &next, Some(latest_child_at))).and(
        broadcast_list_changed(parent.id.as_str(), "updated"),
    ).done()
}

/// What is done when the sub-agents of a conversation are counted. Extra data that takes no members
/// is not dealt with.
pub fn recompute_subagent_summary(parent: &ConversationRow, children: &Vec<ConversationRow>) -> (r: Option<Vec<Action>>)
    requires
        children@.len() <= i64::MAX,
    ensures
        opt_actions(r) == if document(parent.extra@).takes_members() {
            Some(summarized(document(parent.extra@), parent@, conversations(children@)))
        } else {
            None
        },
        match r {
            Some(list) => list@.len() > 0 ==> actions(list@)[0].stores_extra(
                counted(
                    document(parent.extra@),
                    children@.len() as int,
                    running(conversations(children@)) as int,
                ),
            ),
            None => true,
        },
{
    match readable_extra(parent.extra.as_str()) {
        Some(extra) => Some(summarize(extra, parent, children)),
        None => None,
    }
}

proof fn lemma_counts_differ()
    ensures
        "codex_subagent_total_count"@ != "codex_subagent_running_count"@,
        "codex_subagent_total_count"@ != "codex_subagent_completed_count"@,
        "codex_subagent_running_count"@ != "codex_subagent_completed_count"@,
{
    reveal_strlit("codex_subagent_total_count");
    reveal_strlit("codex_subagent_running_count");
    reveal_strlit("codex_subagent_completed_count");
    assert("codex_subagent_total_count"@.len() != "codex_subagent_running_count"@.len());
    assert("codex_subagent_total_count"@.len() != "codex_subagent_completed_count"@.len());
    assert("codex_subagent_running_count"@.len() != "codex_subagent_completed_count"@.len());
}

/// The numbers that are stored are those of the sub-agents, those that run and those that do not
/// make up all of them, and counting them again changes nothing. `again` is what is read back of the
/// extra data.
pub proof fn counting_twice_is_counting_once(
    extra: Tree,
    parent: ConversationView,
    children: Seq<ConversationView>,
    again: Tree,
)
    requires
        extra.takes_members(),
        children.len() <= i64::MAX,
        reads_like(again, counted(extra, children.len() as int, running(children) as int)),
    ensures
        i64_in(again.get("codex_subagent_total_count"@)) == Some(children.len() as i64),
        i64_in(again.get("codex_subagent_running_count"@)) == Some(running(children) as i64),
        i64_in(again.get("codex_subagent_completed_count"@)) == Some(
            (children.len() - running(children)) as i64,
        ),
        running(children) <= children.len(),
        summarized(again, parent, children) == Seq::<ActionView>::empty(),
{
    lemma_counts_differ();
    no_more_run_than_there_are(children);
    let next = counted(extra, children.len() as int, running(children) as int);
    assert(next->Object_0.contains_key("codex_subagent_total_count"@));
    assert(next->Object_0.contains_key("codex_subagent_running_count"@));
    assert(next->Object_0.contains_key("codex_subagent_completed_count"@));
}

/// A conversation whose thread is no longer loaded is marked as one.
pub open spec fn stored_only(extra: Tree) -> Tree {
    extra.put("codex_live_state"@, Tree::Str("stored_only"@))
}

/// What marks a conversation, whose extra data is given, as one whose thread is no longer loaded.
pub fn mark_stored_only(extra: Json, now: i64) -> (r: ConversationRowUpdate)
    requires
        extra@.takes_members(),
    ensures
        r@ == (UpdateView {
            name: None,
            extra: Some(displayed(stored_only(extra@))),
            status: None,
            updated_at: Some(now),
        }),
        is_shallow(extra@) ==> r@.stores_extra(stored_only(extra@)),
{
    let next = extra.put("codex_live_state", Json::str("stored_only"));
    proof {
        broadcast use crate::wire::a_document_stays_shallow_with_a_member;

    }
    ConversationRowUpdate { name: None, extra: Some(print(&next)), status: None, updated_at: Some(now) }
}

pub open spec fn opt_update(update: Option<ConversationRowUpdate>) -> Option<UpdateView> {
    match update {
        Some(update) => Some(update@),
        None => None,
    }
}

/// What marks a conversation as one whose thread is no longer loaded. Extra data that takes no
/// members is not dealt with; what is read back of other data has the mark.
pub fn mark_binding_stored_only(conversation: &ConversationRow, now: i64) -> (r: Option<ConversationRowUpdate>)
    ensures
        opt_update(r) == if document(conversation.extra@).takes_members() {
            Some(
                UpdateView {
                    name: None,
                    extra: Some(displayed(stored_only(document(conversation.extra@)))),
                    status: None,
                    updated_at: Some(now),
                },
            )
        } else {
            None
        },
        match r {
            Some(update) => update@.stores_extra(stored_only(document(conversation.extra@))),
            None => true,
        },
{
    match readable_extra(conversation.extra.as_str()) {
        Some(extra) => Some(mark_stored_only(extra, now)),
        None => None,
    }
}

proof fn lemma_link_names_differ()
    ensures
        "codex_parent_conversation_id"@ != "codex_parent_thread_id"@,
{
    reveal_strlit("codex_parent_conversation_id");
    reveal_strlit("codex_parent_thread_id");
    assert("codex_parent_conversation_id"@.len() != "codex_parent_thread_id"@.len());
}

/// A conversation that names the thread it was spawned from is linked to the conversation that shows that
/// thread, and the change is told; nothing else of its extra data changes. One that names another thread,
/// or is linked to that conversation already, stays as it is.
pub proof fn a_conversation_is_linked_to_its_parent(
    extra: Tree,
    parent: BindingView,
    child_conversation_id: Seq<char>,
    linked_to: Seq<char>,
    other: Seq<char>,
)
    requires
        other != "codex_parent_conversation_id"@,
    ensures
        extra.get("codex_parent_thread_id"@) == Some(Tree::Str(parent.thread_id)) && extra.get(
            "codex_parent_conversation_id"@,
        ) != Some(Tree::Str(parent.conversation_id)) ==> {
            let next = extra.put("codex_parent_conversation_id"@, Tree::Str(parent.conversation_id));
            &&& linked(extra, parent, child_conversation_id) == seq![
                ActionView::UpdateConversation {
                    conversation_id: child_conversation_id,
                    update: UpdateView { name: None, extra: Some(displayed(next)), status: None, updated_at: None },
                },
                list_changed(child_conversation_id, "updated"@),
            ]
            &&& next.get("codex_parent_conversation_id"@) == Some(Tree::Str(parent.conversation_id))
            &&& next.get(other) == extra.get(other)
        },
        extra.get("codex_parent_thread_id"@) != Some(Tree::Str(parent.thread_id)) ==> linked(
            extra,
            parent,
            child_conversation_id,
        ).len() == 0,
        extra.get("codex_parent_conversation_id"@) == Some(Tree::Str(parent.conversation_id)) ==> linked(
            extra,
            parent,
            child_conversation_id,
        ).len() == 0,
        related(parent, parent),
{
    lemma_link_names_differ();
}

/// Two threads are related where they have the same user and the same home, and then only.
pub proof fn relatives_share_their_user_and_home(a: BindingView, b: BindingView)
    ensures
        related(a, b) <==> a.user_id == b.user_id && a.codex_home == b.codex_home,
        related(a, b) == related(b, a),
{
}

/// Every conversation that runs counts as one, and no other does.
pub proof fn every_running_conversation_counts(children: Seq<ConversationView>, more: ConversationView)
    ensures
        running(Seq::<ConversationView>::empty()) == 0,
        more.status == Some("running"@) ==> running(children.push(more)) == running(children) + 1,
        more.status != Some("running"@) ==> running(children.push(more)) == running(children),
{
    assert(children.push(more).drop_last() =~= children);
    assert(children.push(more).last() == more);
}

/// The latest of the times is one of them, and none of them is later.
pub proof fn the_latest_time_is_one_of_them(children: Seq<ConversationView>, own: i64)
    ensures
        own <= latest(children, own),
        forall|i: int| 0 <= i < children.len() ==> (#[trigger] children[i]).updated_at <= latest(children, own),
        latest(children, own) == own || exists|i: int|
            0 <= i < children.len() && (#[trigger] children[i]).updated_at == latest(children, own),
    decreases children.len(),
{
    if children.len() > 0 {
        let front = children.drop_last();
        the_latest_time_is_one_of_them(front, own);
        let before = latest(front, own);
        assert forall|i: int| 0 <= i < children.len() implies (#[trigger] children[i]).updated_at <= latest(children, own) by {
            if i < front.len() {
                assert(front[i] == children[i]);
            }
        }
        if before < children.last().updated_at {
            assert(children[children.len() - 1].updated_at == latest(children, own));
        } else if before != own {
            let i = choose|i: int| 0 <= i < front.len() && (#[trigger] front[i]).updated_at == before;
            assert(children[i].updated_at == latest(children, own));
        }
    }
}

/// A conversation keeps how many sub-agents it has, how many of them run, and how many do not; where the
/// first two are what it kept, nothing is done, and else they are stored, with the time of the latest
/// change, and told. The rest of its extra data stays.
pub proof fn a_conversation_keeps_how_many_sub_agents_it_has(
    extra: Tree,
    parent: ConversationView,
    children: Seq<ConversationView>,
    other: Seq<char>,
)
    requires
        extra.takes_members(),
        children.len() <= i64::MAX,
        other != "codex_subagent_total_count"@,
        other != "codex_subagent_running_count"@,
        other != "codex_subagent_completed_count"@,
    ensures
        ({
            let total = children.len() as i64;
            let active = running(children) as i64;
            let next = counted(extra, total as int, active as int);
            &&& next.get("codex_subagent_total_count"@) == Some(Tree::Int(total))
            &&& next.get("codex_subagent_running_count"@) == Some(Tree::Int(active))
            &&& next.get("codex_subagent_completed_count"@) matches Some(Tree::Int(rest)) && rest + active == total
            &&& next.get(other) == extra.get(other)
            &&& extra.get("codex_subagent_total_count"@) == Some(Tree::Int(total)) && extra.get(
                "codex_subagent_running_count"@,
            ) == Some(Tree::Int(active)) ==> summarized(extra, parent, children).len() == 0
            &&& extra.get("codex_subagent_total_count"@) != Some(Tree::Int(total)) || extra.get(
                "codex_subagent_running_count"@,
            ) != Some(Tree::Int(active)) ==> summarized(extra, parent, children) == seq![
                ActionView::UpdateConversation {
                    conversation_id: parent.id,
                    update: UpdateView {
                        name: None,
                        extra: Some(displayed(next)),
                        status: None,
                        updated_at: Some(latest(children, parent.updated_at)),
                    },
                },
                list_changed(parent.id, "updated"@),
            ]
        }),
{
    lemma_counts_differ();
    no_more_run_than_there_are(children);
}

/// A conversation whose thread is no longer loaded says so, and keeps the rest of its extra data.
pub proof fn a_thread_that_is_not_loaded_is_stored_only(extra: Tree, other: Seq<char>)
    requires
        extra.takes_members(),
        other != "codex_live_state"@,
    ensures
        stored_only(extra).get("codex_live_state"@) == Some(Tree::Str("stored_only"@)),
        stored_only(extra).get(other) == extra.get(other),
{
}

} // verus!
