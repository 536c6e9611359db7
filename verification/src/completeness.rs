//! What a discovery has asked for, and what it has shown, by the time that it is done.
use vstd::prelude::*;

use crate::discovery::{
    a_discovery_stays_well_formed, catalog_scan, descendant_scan, finished_in, run, shown_in, DiscoveryView,
    FetchView, FetchedPageView, FoundView, PhaseView, ReplyView,
};
use crate::json::Tree;
use crate::names::{a_sorted_list_ascends, missing, sorted};
use crate::paths::within;
use crate::rows::WorkspaceView;
use crate::thread::{is_subagent, parent_of, FetchedView};

verus! {

/// What was asked for before the reply at `k`.
pub open spec fn asked_at(workspace: WorkspaceView, replies: Seq<ReplyView>, k: int) -> FetchView {
    run(DiscoveryView::fresh(workspace), replies.take(k)).fetch()
}

/// Some reply answers this.
pub open spec fn was_asked(workspace: WorkspaceView, replies: Seq<ReplyView>, fetch: FetchView) -> bool {
    exists|k: int| 0 <= k < replies.len() && #[trigger] asked_at(workspace, replies, k) == fetch
}

/// The directory of the thread is one that the workspace covers.
pub open spec fn lies_in(thread: FetchedView, workspace: WorkspaceView) -> bool {
    thread.cwd matches Some(cwd) && within(workspace.root_path, cwd, workspace.recursive)
}

/// A thread with this id is among the threads.
pub open spec fn has_thread(threads: Seq<FetchedView>, id: Seq<char>) -> bool {
    exists|i: int| 0 <= i < threads.len() && (#[trigger] threads[i]).thread.get("id"@) == Some(Tree::Str(id))
}

/// Each thread of the workspace on the page, the first with its id, is among the threads, unless it had
/// been dealt with.
pub open spec fn all_there(
    page: FetchedPageView,
    workspace: WorkspaceView,
    seen: Seq<Seq<char>>,
    threads: Seq<FetchedView>,
) -> bool {
    forall|i: int, id: Seq<char>|
        0 <= i < page.threads.len() && lies_in(#[trigger] page.threads[i], workspace) && page.threads[i].thread.get(
            "id"@,
        ) == Some(Tree::Str(id)) && first_with(page.threads, i, id) ==> seen.contains(id) || #[trigger] has_thread(
            threads,
            id,
        )
}

proof fn lemma_has_more(a: Seq<FetchedView>, b: Seq<FetchedView>, id: Seq<char>)
    requires
        has_thread(a, id) || has_thread(b, id),
    ensures
        has_thread(a + b, id),
{
    let all = a + b;
    if has_thread(a, id) {
        let i = choose|i: int| 0 <= i < a.len() && (#[trigger] a[i]).thread.get("id"@) == Some(Tree::Str(id));
        assert(all[i] == a[i]);
    } else {
        let i = choose|i: int| 0 <= i < b.len() && (#[trigger] b[i]).thread.get("id"@) == Some(Tree::Str(id));
        assert(all[a.len() + i] == b[i]);
    }
}

proof fn lemma_pushed(names: Seq<Seq<char>>, name: Seq<char>)
    ensures
        names.push(name).contains(name),
        forall|x: Seq<char>| names.contains(x) ==> #[trigger] names.push(name).contains(x),
{
    assert(names.push(name)[names.len() as int] == name);
    assert forall|x: Seq<char>| names.contains(x) implies #[trigger] names.push(name).contains(x) by {
        let i = choose|i: int| 0 <= i < names.len() && names[i] == x;
        assert(names.push(name)[i] == x);
    }
}

proof fn lemma_descendants_there(found: FoundView, workspace: WorkspaceView, threads: Seq<FetchedView>)
    ensures
        ({
            let scan = descendant_scan(found, workspace, threads);
            &&& scan.found.roots == found.roots
            &&& scan.found.active == found.active
            &&& forall|x: Seq<char>| found.seen.contains(x) ==> #[trigger] scan.found.seen.contains(x)
            &&& forall|x: Seq<char>|
                #[trigger] scan.found.seen.contains(x) ==> found.seen.contains(x) || has_thread(scan.shown, x) || exists|i: int|
                    0 <= i < threads.len() && (#[trigger] threads[i]).thread.get("id"@) == Some(Tree::Str(x)) && !lies_in(
                        threads[i],
                        workspace,
                    )
            &&& forall|i: int, id: Seq<char>|
                0 <= i < threads.len() && lies_in(#[trigger] threads[i], workspace) && threads[i].thread.get("id"@) == Some(
                    Tree::Str(id),
                ) && first_with(threads, i, id) ==> found.seen.contains(id) || #[trigger] has_thread(scan.shown, id)
        }),
    decreases threads.len(),
{
    if threads.len() > 0 {
        let front = threads.drop_last();
        let last = threads.last();
        let before = descendant_scan(found, workspace, front);
        let scan = descendant_scan(found, workspace, threads);
        lemma_descendants_there(found, workspace, front);
        match last.thread.str_at("id"@) {
            Some(id) => {
                lemma_pushed(before.found.seen, id);
                if !before.found.seen.contains(id) && last.is_in(workspace) {
                    assert(scan.shown[before.shown.len() as int] == last);
                    assert(has_thread(scan.shown, id));
                }
            },
            None => {},
        }
        assert(scan.shown == before.shown || scan.shown == before.shown.push(last));
        assert forall|x: Seq<char>| has_thread(before.shown, x) implies #[trigger] has_thread(scan.shown, x) by {
            let i = choose|i: int|
                0 <= i < before.shown.len() && (#[trigger] before.shown[i]).thread.get("id"@) == Some(Tree::Str(x));
            assert(scan.shown[i] == before.shown[i]);
        }
        assert forall|x: Seq<char>| #[trigger] scan.found.seen.contains(x) implies found.seen.contains(x) || has_thread(
            scan.shown,
            x,
        ) || exists|i: int|
            0 <= i < threads.len() && (#[trigger] threads[i]).thread.get("id"@) == Some(Tree::Str(x)) && !lies_in(
                threads[i],
                workspace,
            ) by {
            if before.found.seen.contains(x) {
                if !found.seen.contains(x) && !has_thread(before.shown, x) {
                    let i = choose|i: int|
                        0 <= i < front.len() && (#[trigger] front[i]).thread.get("id"@) == Some(Tree::Str(x)) && !lies_in(
                            front[i],
                            workspace,
                        );
                    assert(threads[i] == front[i]);
                }
            } else {
                assert(last.thread.str_at("id"@) == Some(x)) by {
                    let k = choose|k: int| 0 <= k < scan.found.seen.len() && scan.found.seen[k] == x;
                    if k < before.found.seen.len() {
                        assert(before.found.seen[k] == x);
                    }
                }
                assert(threads[threads.len() - 1] == last);
            }
        }
        assert forall|i: int, id: Seq<char>|
            0 <= i < threads.len() && lies_in(#[trigger] threads[i], workspace) && threads[i].thread.get("id"@) == Some(
                Tree::Str(id),
            ) && first_with(threads, i, id) implies found.seen.contains(id) || #[trigger] has_thread(scan.shown, id) by {
            if i < front.len() {
                assert(front[i] == threads[i]);
                assert(first_with(front, i, id));
                assert(has_thread(before.shown, id) || found.seen.contains(id));
            } else {
                assert(threads[i] == last);
                if before.found.seen.contains(id) {
                    if !found.seen.contains(id) && !has_thread(before.shown, id) {
                        let k = choose|k: int|
                            0 <= k < front.len() && (#[trigger] front[k]).thread.get("id"@) == Some(Tree::Str(id)) && !lies_in(
                                front[k],
                                workspace,
                            );
                        assert(threads[k] == front[k]);
                        assert(false);
                    }
                }
            }
        }
    }
}

/// No earlier thread of the list has this id.
pub open spec fn first_with(threads: Seq<FetchedView>, i: int, id: Seq<char>) -> bool {
    forall|j: int| 0 <= j < i ==> (#[trigger] threads[j]).thread.get("id"@) != Some(Tree::Str(id))
}

proof fn lemma_catalog_there(found: FoundView, workspace: WorkspaceView, threads: Seq<FetchedView>)
    ensures
        ({
            let scan = catalog_scan(found, workspace, threads);
            &&& forall|x: Seq<char>| found.seen.contains(x) ==> #[trigger] scan.found.seen.contains(x)
            &&& forall|x: Seq<char>| found.roots.contains(x) ==> #[trigger] scan.found.roots.contains(x)
            &&& forall|x: Seq<char>| found.active.contains(x) ==> #[trigger] scan.found.active.contains(x)
            &&& forall|x: Seq<char>| #[trigger]
                scan.found.roots.contains(x) ==> found.roots.contains(x) || scan.found.seen.contains(x)
            &&& forall|x: Seq<char>| #[trigger]
                scan.found.seen.contains(x) ==> found.seen.contains(x) || has_thread(scan.shown, x)
            &&& forall|i: int|
                0 <= i < scan.shown.len() ==> {
                    &&& lies_in(#[trigger] scan.shown[i], workspace)
                    &&& !is_subagent(scan.shown[i].thread)
                    &&& scan.shown[i].thread.get("id"@) matches Some(Tree::Str(id)) && scan.found.roots.contains(id) && (
                    scan.shown[i].thread.get_in("status"@, "type"@) == Some(Tree::Str("active"@))
                        ==> scan.found.active.contains(id))
                }
            &&& scan.found.finished >= 5 || forall|i: int, id: Seq<char>|
                0 <= i < threads.len() && lies_in(#[trigger] threads[i], workspace) && !is_subagent(threads[i].thread)
                    && threads[i].thread.get("id"@) == Some(Tree::Str(id)) ==> found.seen.contains(id)
                    || #[trigger] has_thread(scan.shown, id)
        }),
    decreases threads.len(),
{
    if threads.len() > 0 {
        let front = threads.drop_last();
        let last = threads.last();
        let before = catalog_scan(found, workspace, front);
        let scan = catalog_scan(found, workspace, threads);
        lemma_catalog_there(found, workspace, front);
        if before.found.finished < 5 {
            if scan.shown != before.shown {
                let id = last.thread.str_at("id"@)->0;
                lemma_pushed(before.found.seen, id);
                lemma_pushed(before.found.roots, id);
                lemma_pushed(before.found.active, id);
                assert(scan.shown == before.shown.push(last));
                assert(scan.shown[before.shown.len() as int] == last);
                assert(has_thread(scan.shown, id));
                assert forall|x: Seq<char>| #[trigger] scan.found.roots.contains(x) implies found.roots.contains(x)
                    || scan.found.seen.contains(x) by {
                    if x != id {
                        let k = choose|k: int| 0 <= k < scan.found.roots.len() && scan.found.roots[k] == x;
                        if k < before.found.roots.len() {
                            assert(before.found.roots[k] == x);
                        }
                        assert(before.found.roots.contains(x));
                    }
                }
                assert forall|x: Seq<char>| #[trigger] scan.found.seen.contains(x) implies found.seen.contains(x)
                    || has_thread(scan.shown, x) by {
                    if x != id {
                        let k = choose|k: int| 0 <= k < scan.found.seen.len() && scan.found.seen[k] == x;
                        assert(before.found.seen[k] == x);
                        assert(before.found.seen.contains(x));
                        if has_thread(before.shown, x) {
                            let i = choose|i: int|
                                0 <= i < before.shown.len() && (#[trigger] before.shown[i]).thread.get("id"@) == Some(
                                    Tree::Str(x),
                                );
                            assert(scan.shown[i] == before.shown[i]);
                        }
                    }
                }
                assert forall|i: int| 0 <= i < scan.shown.len() implies {
                    &&& lies_in(#[trigger] scan.shown[i], workspace)
                    &&& !is_subagent(scan.shown[i].thread)
                    &&& scan.shown[i].thread.get("id"@) matches Some(Tree::Str(id)) && scan.found.roots.contains(id) && (
                    scan.shown[i].thread.get_in("status"@, "type"@) == Some(Tree::Str("active"@))
                        ==> scan.found.active.contains(id))
                } by {
                    if i < before.shown.len() {
                        assert(scan.shown[i] == before.shown[i]);
                        let x = before.shown[i].thread.get("id"@)->0->Str_0;
                        assert(before.found.roots.contains(x));
                    }
                }
            } else {
                assert(scan.found == before.found) by {
                    if scan.found != before.found {
                        assert(scan.shown.len() == before.shown.len() + 1);
                    }
                }
            }
            if scan.found.finished < 5 {
                assert forall|i: int, id: Seq<char>|
                    0 <= i < threads.len() && lies_in(#[trigger] threads[i], workspace) && !is_subagent(threads[i].thread)
                        && threads[i].thread.get("id"@) == Some(Tree::Str(id)) implies found.seen.contains(id)
                    || #[trigger] has_thread(scan.shown, id) by {
                    if i < front.len() {
                        assert(front[i] == threads[i]);
                        if has_thread(before.shown, id) {
                            let j = choose|j: int|
                                0 <= j < before.shown.len() && (#[trigger] before.shown[j]).thread.get("id"@) == Some(
                                    Tree::Str(id),
                                );
                            assert(scan.shown[j] == before.shown[j]);
                        }
                    } else {
                        assert(threads[i] == last);
                        assert(scan.found.seen.contains(id));
                    }
                }
            }
        }
    }
}

/// A thread that is read, because it is loaded or because a loaded sub-agent belongs to it, is shown
/// exactly when the workspace covers it; then it has been dealt with. Of a loaded one, the thread that
/// it was spawned from, or else itself, is one whose descendants are listed, and it is resumed where it
/// is active.
pub proof fn a_thread_that_is_read_is_shown(discovery: DiscoveryView, thread: FetchedView, id: Seq<char>)
    requires
        discovery.phase is ReadLoaded || discovery.phase is ReadRoots,
        discovery.fetch() == (FetchView::Thread { thread_id: id }),
    ensures
        ({
            let (next, shown) = discovery.step(ReplyView::Thread { thread });
            &&& lies_in(thread, discovery.workspace) ==> shown == seq![thread] && next.found.seen.contains(id)
            &&& !lies_in(thread, discovery.workspace) ==> shown.len() == 0 && next.found == discovery.found
            &&& next.found.finished == discovery.found.finished
            &&& discovery.phase is ReadRoots ==> next.found.roots == discovery.found.roots && next.found.active
                == discovery.found.active
            &&& forall|x: Seq<char>| #[trigger]
                next.found.roots.contains(x) ==> discovery.found.roots.contains(x) || x == id || parent_of(thread.thread)
                    == Some(x)
            &&& lies_in(thread, discovery.workspace) && discovery.phase is ReadLoaded ==> {
                &&& parent_of(thread.thread) matches Some(parent) ==> next.found.roots.contains(parent)
                &&& parent_of(thread.thread) is None ==> next.found.roots.contains(id)
                &&& thread.thread.get_in("status"@, "type"@) == Some(Tree::Str("active"@)) ==> next.found.active.contains(id)
                &&& thread.thread.get_in("status"@, "type"@) != Some(Tree::Str("active"@)) ==> next.found.active
                    == discovery.found.active
            }
        }),
{
    let found = discovery.found;
    let next = discovery.step(ReplyView::Thread { thread }).0;
    lemma_pushed(found.seen, id);
    lemma_pushed(found.active, id);
    assert forall|x: Seq<char>| #[trigger] next.found.roots.contains(x) implies found.roots.contains(x) || x == id
        || parent_of(thread.thread) == Some(x) by {
        let k = choose|k: int| 0 <= k < next.found.roots.len() && next.found.roots[k] == x;
        if k < found.roots.len() {
            assert(found.roots[k] == x);
        }
    }
    lemma_pushed(
        found.roots,
        match parent_of(thread.thread) {
            Some(parent) => parent,
            None => id,
        },
    );
}

/// A thread that is resumed is shown as it comes back.
pub proof fn a_resumed_thread_is_shown(discovery: DiscoveryView, thread: FetchedView)
    requires
        discovery.fetch() is Resume,
    ensures
        discovery.step(ReplyView::Thread { thread }).1 == seq![thread],
{
}

/// A page of descendants shows every thread of the workspace on it that had not been dealt with, and all
/// of them have been then.
pub proof fn a_page_of_descendants_is_shown(discovery: DiscoveryView, page: FetchedPageView)
    requires
        discovery.fetch() is Descendants,
    ensures
        ({
            let (next, shown) = discovery.step(ReplyView::Page { page });
            &&& all_there(page, discovery.workspace, discovery.found.seen, shown)
            &&& next.found.roots == discovery.found.roots
            &&& next.found.active == discovery.found.active
        }),
{
    lemma_descendants_there(discovery.found, discovery.workspace, page.threads);
}

/// A page of the catalog shows every thread of the workspace on it that is no sub-agent's and had not
/// been dealt with, until five finished ones are shown. The descendants of each of them are to be
/// listed, and those in which a turn runs are to be resumed.
pub proof fn a_page_of_the_catalog_is_shown(discovery: DiscoveryView, page: FetchedPageView, i: int, id: Seq<char>)
    requires
        discovery.fetch() is Page,
        0 <= i < page.threads.len(),
        lies_in(page.threads[i], discovery.workspace),
        !is_subagent(page.threads[i].thread),
        page.threads[i].thread.get("id"@) == Some(Tree::Str(id)),
    ensures
        ({
            let (next, shown) = discovery.step(ReplyView::Page { page });
            &&& discovery.found.seen.contains(id) || has_thread(shown, id) || next.found.finished >= 5
            &&& forall|j: int|
                0 <= j < shown.len() ==> {
                    &&& (#[trigger] shown[j]).thread.get("id"@) matches Some(Tree::Str(x)) && next.found.roots.contains(x)
                        && (shown[j].thread.get_in("status"@, "type"@) == Some(Tree::Str("active"@))
                        ==> next.found.active.contains(x))
                }
        }),
{
    lemma_catalog_there(discovery.found, discovery.workspace, page.threads);
}

/// A listing goes on with the page that the last one names, of the same listing, until twenty have been
/// asked for. Without another one, the same is listed with what is archived, where it was not yet; and
/// the catalog is left as soon as five finished threads of it are shown.
pub proof fn a_listing_goes_on_to_its_end(discovery: DiscoveryView, page: FetchedPageView, next_cursor: Seq<char>)
    ensures
        ({
            let next = discovery.step(ReplyView::Page { page }).0;
            &&& discovery.phase matches PhaseView::Descendants { rest, archived, pages, .. } ==> {
                &&& page.next_cursor == Some(next_cursor) && pages < 19 ==> next.fetch() == (FetchView::Descendants {
                    root_thread_id: rest[0],
                    cursor: Some(next_cursor),
                    archived,
                }) && (next.phase matches PhaseView::Descendants { pages: more, .. } && more == pages + 1)
                &&& (page.next_cursor is None || pages >= 19) && !archived ==> next.fetch() == (FetchView::Descendants {
                    root_thread_id: rest[0],
                    cursor: None,
                    archived: true,
                }) && (next.phase matches PhaseView::Descendants { pages: more, .. } && more == 0)
            }
            &&& discovery.phase matches PhaseView::Catalog { archived, pages, .. } ==> {
                &&& next.found.finished >= 5 ==> !(next.phase is Catalog)
                &&& next.found.finished < 5 && page.next_cursor == Some(next_cursor) && pages < 19 ==> next.fetch() == (
                FetchView::Page { cursor: Some(next_cursor), archived }) && (next.phase matches PhaseView::Catalog {
                    pages: more,
                    ..
                } && more == pages + 1)
                &&& next.found.finished < 5 && (page.next_cursor is None || pages >= 19) && !archived ==> next.fetch() == (
                FetchView::Page { cursor: None, archived: true }) && (next.phase matches PhaseView::Catalog {
                    pages: more,
                    ..
                } && more == 0)
                &&& next.found.finished < 5 && (page.next_cursor is None || pages >= 19) && archived ==> !(
                next.phase is Catalog)
            }
        }),
{
}

proof fn lemma_asked_grows(workspace: WorkspaceView, replies: Seq<ReplyView>)
    requires
        replies.len() > 0,
    ensures
        forall|fetch: FetchView|
            was_asked(workspace, replies.drop_last(), fetch) ==> #[trigger] was_asked(workspace, replies, fetch),
        was_asked(workspace, replies, run(DiscoveryView::fresh(workspace), replies.drop_last()).fetch()),
{
    let front = replies.drop_last();
    assert forall|fetch: FetchView| was_asked(workspace, front, fetch) implies #[trigger] was_asked(
        workspace,
        replies,
        fetch,
    ) by {
        let k = choose|k: int| 0 <= k < front.len() && #[trigger] asked_at(workspace, front, k) == fetch;
        assert(replies.take(k) =~= front.take(k));
        assert(asked_at(workspace, replies, k) == fetch);
    }
    assert(replies.take(front.len() as int) =~= front);
    assert(asked_at(workspace, replies, front.len() as int) == run(DiscoveryView::fresh(workspace), front).fetch());
}

/// What has been asked for so far, and what is left to be.
spec fn on_the_way(workspace: WorkspaceView, replies: Seq<ReplyView>) -> bool {
    let at = run(DiscoveryView::fresh(workspace), replies);
    &&& at.phase is Loaded <==> replies.len() == 0
    &&& forall|id: Seq<char>|
        #![trigger was_asked(workspace, replies, FetchView::Thread { thread_id: id })]
        replies.len() > 0 && (replies[0] matches ReplyView::Loaded { thread_ids } && thread_ids.contains(id)) ==> {
            ||| was_asked(workspace, replies, FetchView::Thread { thread_id: id })
            ||| at.phase matches PhaseView::ReadLoaded { rest } && rest.contains(id)
        }
    &&& !(at.phase is Loaded) && !(at.phase is ReadLoaded) ==> forall|root: Seq<char>|
        #![trigger at.found.roots.contains(root)]
        at.found.roots.contains(root) ==> {
            ||| at.found.seen.contains(root)
            ||| was_asked(workspace, replies, FetchView::Thread { thread_id: root })
            ||| at.phase matches PhaseView::ReadRoots { rest } && rest.contains(root)
        }
    &&& at.phase matches PhaseView::Catalog { archived, cursor, .. } ==> archived || cursor is Some ==> was_asked(
        workspace,
        replies,
        FetchView::Page { cursor: None, archived: false },
    )
    &&& at.phase is Descendants || at.phase is Resume || at.phase is Done ==> was_asked(
        workspace,
        replies,
        FetchView::Page { cursor: None, archived: false },
    )
    &&& at.phase matches PhaseView::Descendants { rest, archived, cursor, .. } ==> {
        &&& rest.len() > 0
        &&& archived ==> was_asked(
            workspace,
            replies,
            FetchView::Descendants { root_thread_id: rest[0], cursor: None, archived: false },
        )
        &&& cursor is Some ==> was_asked(
            workspace,
            replies,
            FetchView::Descendants { root_thread_id: rest[0], cursor: None, archived },
        )
    }
    &&& at.phase is Descendants || at.phase is Resume || at.phase is Done ==> forall|root: Seq<char>, archived: bool|
        #![trigger was_asked(workspace, replies, FetchView::Descendants { root_thread_id: root, cursor: None, archived })]
        at.found.roots.contains(root) ==> {
            ||| was_asked(workspace, replies, FetchView::Descendants { root_thread_id: root, cursor: None, archived })
            ||| at.phase matches PhaseView::Descendants { rest, .. } && rest.contains(root)
        }
    &&& at.phase is Resume || at.phase is Done ==> forall|id: Seq<char>|
        #![trigger was_asked(workspace, replies, FetchView::Resume { thread_id: id })]
        at.found.active.contains(id) ==> {
            ||| was_asked(workspace, replies, FetchView::Resume { thread_id: id })
            ||| at.phase matches PhaseView::Resume { rest } && rest.contains(id)
        }
}

proof fn lemma_rest(names: Seq<Seq<char>>, x: Seq<char>)
    requires
        names.contains(x),
    ensures
        names.len() > 0,
        x == names[0] || names.len() > 1 && names.drop_first().contains(x),
{
    let i = choose|i: int| 0 <= i < names.len() && names[i] == x;
    if i > 0 {
        assert(names.drop_first()[i - 1] == x);
    }
}

proof fn lemma_missing_there(names: Seq<Seq<char>>, seen: Seq<Seq<char>>, x: Seq<char>)
    requires
        names.contains(x),
        !seen.contains(x),
    ensures
        missing(names, seen).contains(x),
    decreases names.len(),
{
    reveal(Seq::filter);
    let wanted = |name: Seq<char>| !seen.contains(name);
    let i = choose|i: int| 0 <= i < names.len() && names[i] == x;
    let front = names.drop_last();
    if i < front.len() {
        assert(front[i] == x);
        lemma_missing_there(front, seen, x);
        let kept = missing(front, seen);
        let k = choose|k: int| 0 <= k < kept.len() && kept[k] == x;
        assert(missing(names, seen)[k] == x);
    } else {
        assert(names.last() == x);
        let all = missing(names, seen);
        assert(all[all.len() - 1] == x);
    }
}

proof fn lemma_on_the_way(workspace: WorkspaceView, replies: Seq<ReplyView>)
    ensures
        on_the_way(workspace, replies),
    decreases replies.len(),
{
    let fresh = DiscoveryView::fresh(workspace);
    lemma_fresh_is_well_formed(workspace);
    if replies.len() > 0 {
        let front = replies.drop_last();
        let reply = replies.last();
        let before = run(fresh, front);
        let at = run(fresh, replies);
        lemma_on_the_way(workspace, front);
        lemma_asked_grows(workspace, replies);
        a_discovery_stays_well_formed(fresh, front);
        if front.len() > 0 {
            assert(replies[0] == front[0]);
        }
        lemma_loaded_on_the_way(workspace, replies);
        lemma_roots_on_the_way(workspace, replies);
        lemma_descendants_on_the_way(workspace, replies);
        lemma_resumed_on_the_way(workspace, replies);
    }
}

proof fn lemma_fresh_is_well_formed(workspace: WorkspaceView)
    ensures
        DiscoveryView::fresh(workspace).wf(),
{
}

proof fn lemma_loaded_on_the_way(workspace: WorkspaceView, replies: Seq<ReplyView>)
    requires
        replies.len() > 0,
        on_the_way(workspace, replies.drop_last()),
    ensures
        ({
            let at = run(DiscoveryView::fresh(workspace), replies);
            &&& !(at.phase is Loaded)
            &&& forall|id: Seq<char>|
                #![trigger was_asked(workspace, replies, FetchView::Thread { thread_id: id })]
                (replies[0] matches ReplyView::Loaded { thread_ids } && thread_ids.contains(id)) ==> {
                    ||| was_asked(workspace, replies, FetchView::Thread { thread_id: id })
                    ||| at.phase matches PhaseView::ReadLoaded { rest } && rest.contains(id)
                }
        }),
{
    let fresh = DiscoveryView::fresh(workspace);
    let front = replies.drop_last();
    let before = run(fresh, front);
    let at = run(fresh, replies);
    lemma_asked_grows(workspace, replies);
    lemma_fresh_is_well_formed(workspace);
    a_discovery_stays_well_formed(fresh, front);
    if front.len() > 0 {
        assert(replies[0] == front[0]);
    }
    assert forall|id: Seq<char>|
        #![trigger was_asked(workspace, replies, FetchView::Thread { thread_id: id })]
        (replies[0] matches ReplyView::Loaded { thread_ids } && thread_ids.contains(id)) implies {
        ||| was_asked(workspace, replies, FetchView::Thread { thread_id: id })
        ||| at.phase matches PhaseView::ReadLoaded { rest } && rest.contains(id)
    } by {
        if front.len() > 0 {
            assert(was_asked(workspace, front, FetchView::Thread { thread_id: id }) || (before.phase matches
                PhaseView::ReadLoaded { rest } && rest.contains(id)));
            match before.phase {
                PhaseView::ReadLoaded { rest } => {
                    if rest.contains(id) {
                        lemma_rest(rest, id);
                    }
                },
                _ => {},
            }
        } else {
            assert(replies[0] == replies.last());
            let ids = replies[0]->thread_ids;
            let k = choose|k: int| 0 <= k < ids.len() && ids[k] == id;
            assert(ids.len() > 0);
        }
    }
}

proof fn lemma_roots_on_the_way(workspace: WorkspaceView, replies: Seq<ReplyView>)
    requires
        replies.len() > 0,
        on_the_way(workspace, replies.drop_last()),
    ensures
        ({
            let at = run(DiscoveryView::fresh(workspace), replies);
            &&& !(at.phase is Loaded) && !(at.phase is ReadLoaded) ==> forall|root: Seq<char>|
                #![trigger at.found.roots.contains(root)]
                at.found.roots.contains(root) ==> {
                    ||| at.found.seen.contains(root)
                    ||| was_asked(workspace, replies, FetchView::Thread { thread_id: root })
                    ||| at.phase matches PhaseView::ReadRoots { rest } && rest.contains(root)
                }
            &&& at.phase matches PhaseView::Catalog { archived, cursor, .. } ==> archived || cursor is Some
                ==> was_asked(workspace, replies, FetchView::Page { cursor: None, archived: false })
            &&& at.phase is Descendants || at.phase is Resume || at.phase is Done ==> was_asked(
                workspace,
                replies,
                FetchView::Page { cursor: None, archived: false },
            )
        }),
{
    let fresh = DiscoveryView::fresh(workspace);
    let front = replies.drop_last();
    let reply = replies.last();
    let before = run(fresh, front);
    let at = run(fresh, replies);
    lemma_asked_grows(workspace, replies);
    lemma_fresh_is_well_formed(workspace);
    a_discovery_stays_well_formed(fresh, front);
    match reply {
        ReplyView::Page { page } => {
            lemma_catalog_there(before.found, before.workspace, page.threads);
            lemma_descendants_there(before.found, before.workspace, page.threads);
        },
        _ => {},
    }
    if !(at.phase is Loaded) && !(at.phase is ReadLoaded) {
        assert forall|root: Seq<char>|
            #![trigger at.found.roots.contains(root)]
            at.found.roots.contains(root) implies {
            ||| at.found.seen.contains(root)
            ||| was_asked(workspace, replies, FetchView::Thread { thread_id: root })
            ||| at.phase matches PhaseView::ReadRoots { rest } && rest.contains(root)
        } by {
            match before.phase {
                PhaseView::Loaded => {
                    if !at.found.seen.contains(root) {
                        lemma_missing_there(at.found.roots, at.found.seen, root);
                    }
                },
                PhaseView::ReadLoaded { .. } => {
                    if !at.found.seen.contains(root) {
                        lemma_missing_there(at.found.roots, at.found.seen, root);
                        let rest = missing(at.found.roots, at.found.seen);
                        let k = choose|k: int| 0 <= k < rest.len() && rest[k] == root;
                        assert(rest.len() > 0);
                    }
                },
                PhaseView::ReadRoots { rest } => {
                    assert(before.found.roots.contains(root));
                    if before.found.seen.contains(root) {
                        lemma_pushed(before.found.seen, rest[0]);
                    } else if rest.contains(root) {
                        lemma_rest(rest, root);
                    } else {
                        assert(was_asked(workspace, front, FetchView::Thread { thread_id: root }));
                    }
                },
                PhaseView::Catalog { .. } => {
                    if before.found.roots.contains(root) {
                        if before.found.seen.contains(root) {
                            assert(at.found.seen.contains(root));
                        } else {
                            assert(was_asked(workspace, front, FetchView::Thread { thread_id: root }));
                        }
                    }
                },
                PhaseView::Descendants { .. } => {
                    assert(before.found.roots.contains(root));
                    if before.found.seen.contains(root) {
                        assert(at.found.seen.contains(root));
                    } else {
                        assert(was_asked(workspace, front, FetchView::Thread { thread_id: root }));
                    }
                },
                _ => {
                    assert(before.found.roots.contains(root));
                    if !before.found.seen.contains(root) {
                        assert(was_asked(workspace, front, FetchView::Thread { thread_id: root }));
                    }
                },
            }
        }
    }
}

proof fn lemma_descendants_on_the_way(workspace: WorkspaceView, replies: Seq<ReplyView>)
    requires
        replies.len() > 0,
        on_the_way(workspace, replies.drop_last()),
    ensures
        ({
            let at = run(DiscoveryView::fresh(workspace), replies);
            &&& at.phase matches PhaseView::Descendants { rest, archived, cursor, .. } ==> {
                &&& rest.len() > 0
                &&& archived ==> was_asked(
                    workspace,
                    replies,
                    FetchView::Descendants { root_thread_id: rest[0], cursor: None, archived: false },
                )
                &&& cursor is Some ==> was_asked(
                    workspace,
                    replies,
                    FetchView::Descendants { root_thread_id: rest[0], cursor: None, archived },
                )
            }
            &&& at.phase is Descendants || at.phase is Resume || at.phase is Done ==> forall|
                root: Seq<char>,
                archived: bool,
            |
                #![trigger was_asked(workspace, replies, FetchView::Descendants { root_thread_id: root, cursor: None, archived })]
                at.found.roots.contains(root) ==> {
                    ||| was_asked(
                        workspace,
                        replies,
                        FetchView::Descendants { root_thread_id: root, cursor: None, archived },
                    )
                    ||| at.phase matches PhaseView::Descendants { rest, .. } && rest.contains(root)
                }
        }),
{
    let fresh = DiscoveryView::fresh(workspace);
    let front = replies.drop_last();
    let reply = replies.last();
    let before = run(fresh, front);
    let at = run(fresh, replies);
    lemma_asked_grows(workspace, replies);
    lemma_fresh_is_well_formed(workspace);
    a_discovery_stays_well_formed(fresh, front);
    a_discovery_stays_well_formed(fresh, replies);
    match reply {
        ReplyView::Page { page } => {
            lemma_descendants_there(before.found, before.workspace, page.threads);
        },
        _ => {},
    }
    if at.phase is Descendants || at.phase is Resume || at.phase is Done {
        assert forall|root: Seq<char>, archived: bool|
            #![trigger was_asked(workspace, replies, FetchView::Descendants { root_thread_id: root, cursor: None, archived })]
            at.found.roots.contains(root) implies {
            ||| was_asked(workspace, replies, FetchView::Descendants { root_thread_id: root, cursor: None, archived })
            ||| at.phase matches PhaseView::Descendants { rest, .. } && rest.contains(root)
        } by {
            match before.phase {
                PhaseView::Catalog { .. } => {
                    let k = choose|k: int| 0 <= k < at.found.roots.len() && at.found.roots[k] == root;
                    assert(at.found.roots.len() > 0);
                },
                PhaseView::Descendants { rest, archived: with, cursor, .. } => {
                    assert(before.found.roots.contains(root));
                    assert(was_asked(
                        workspace,
                        front,
                        FetchView::Descendants { root_thread_id: root, cursor: None, archived },
                    ) || rest.contains(root));
                    if rest.contains(root) {
                        lemma_rest(rest, root);
                        if root == rest[0] {
                            if cursor is None {
                                assert(before.fetch() == (FetchView::Descendants {
                                    root_thread_id: root,
                                    cursor: None,
                                    archived: with,
                                }));
                            }
                        }
                    }
                },
                _ => {
                    assert(before.found.roots.contains(root));
                    assert(was_asked(
                        workspace,
                        front,
                        FetchView::Descendants { root_thread_id: root, cursor: None, archived },
                    ));
                },
            }
        }
    }
    match before.phase {
        PhaseView::Descendants { rest, archived, cursor, .. } => {
            if cursor is None {
                assert(before.fetch() == (FetchView::Descendants {
                    root_thread_id: rest[0],
                    cursor: None,
                    archived,
                }));
            }
        },
        _ => {},
    }
}

proof fn lemma_resumed_on_the_way(workspace: WorkspaceView, replies: Seq<ReplyView>)
    requires
        replies.len() > 0,
        on_the_way(workspace, replies.drop_last()),
    ensures
        ({
            let at = run(DiscoveryView::fresh(workspace), replies);
            at.phase is Resume || at.phase is Done ==> forall|id: Seq<char>|
                #![trigger was_asked(workspace, replies, FetchView::Resume { thread_id: id })]
                at.found.active.contains(id) ==> {
                    ||| was_asked(workspace, replies, FetchView::Resume { thread_id: id })
                    ||| at.phase matches PhaseView::Resume { rest } && rest.contains(id)
                }
        }),
{
    let fresh = DiscoveryView::fresh(workspace);
    let front = replies.drop_last();
    let before = run(fresh, front);
    let at = run(fresh, replies);
    lemma_asked_grows(workspace, replies);
    lemma_fresh_is_well_formed(workspace);
    a_discovery_stays_well_formed(fresh, front);
    a_sorted_list_ascends(at.found.active);
    if at.phase is Resume || at.phase is Done {
        assert forall|id: Seq<char>|
            #![trigger was_asked(workspace, replies, FetchView::Resume { thread_id: id })]
            at.found.active.contains(id) implies {
            ||| was_asked(workspace, replies, FetchView::Resume { thread_id: id })
            ||| at.phase matches PhaseView::Resume { rest } && rest.contains(id)
        } by {
            match before.phase {
                PhaseView::Resume { rest } => {
                    assert(was_asked(workspace, front, FetchView::Resume { thread_id: id }) || rest.contains(id));
                    if rest.contains(id) {
                        lemma_rest(rest, id);
                    }
                },
                PhaseView::Done => {
                    assert(was_asked(workspace, front, FetchView::Resume { thread_id: id }));
                },
                _ => {
                    let rest = sorted(at.found.active);
                    assert(rest.contains(id));
                    let k = choose|k: int| 0 <= k < rest.len() && rest[k] == id;
                    assert(rest.len() > 0);
                },
            }
        }
    }
}

proof fn lemma_shown_in(workspace: WorkspaceView, replies: Seq<ReplyView>, k: int, id: Seq<char>)
    requires
        0 <= k < replies.len(),
        has_thread(run(DiscoveryView::fresh(workspace), replies.take(k)).step(replies[k]).1, id),
    ensures
        has_thread(shown_in(DiscoveryView::fresh(workspace), replies), id),
    decreases replies.len(),
{
    let fresh = DiscoveryView::fresh(workspace);
    let front = replies.drop_last();
    let before = run(fresh, front);
    if k < front.len() {
        assert(replies.take(k) =~= front.take(k));
        lemma_shown_in(workspace, front, k, id);
    } else {
        assert(replies.take(k) =~= front);
    }
    lemma_has_more(shown_in(fresh, front), before.step(replies.last()).1, id);
}

/// Before a discovery is done, the descendants of every thread that is a root at its end have been asked
/// for, once without and once with what is archived; and every thread of the workspace on the page that
/// answers is shown, unless it had been dealt with.
pub proof fn the_descendants_of_every_root_are_listed(
    workspace: WorkspaceView,
    replies: Seq<ReplyView>,
    root: Seq<char>,
    archived: bool,
)
    requires
        run(DiscoveryView::fresh(workspace), replies).fetch() is Nothing,
        run(DiscoveryView::fresh(workspace), replies).found.roots.contains(root),
    ensures
        exists|k: int|
            {
                &&& 0 <= k < replies.len()
                &&& #[trigger] asked_at(workspace, replies, k) == (FetchView::Descendants {
                    root_thread_id: root,
                    cursor: None,
                    archived,
                })
                &&& replies[k] matches ReplyView::Page { page } ==> all_there(
                    page,
                    workspace,
                    run(DiscoveryView::fresh(workspace), replies.take(k)).found.seen,
                    shown_in(DiscoveryView::fresh(workspace), replies),
                )
            },
{
    let fresh = DiscoveryView::fresh(workspace);
    lemma_on_the_way(workspace, replies);
    let fetch = FetchView::Descendants { root_thread_id: root, cursor: None, archived };
    assert(was_asked(workspace, replies, fetch));
    let k = choose|k: int| 0 <= k < replies.len() && #[trigger] asked_at(workspace, replies, k) == fetch;
    every_page_of_descendants_is_shown(workspace, replies, k);
}

/// Whenever descendants are asked for, and a page comes, every thread of the workspace on it is shown,
/// unless it had been dealt with.
pub proof fn every_page_of_descendants_is_shown(workspace: WorkspaceView, replies: Seq<ReplyView>, k: int)
    requires
        0 <= k < replies.len(),
        asked_at(workspace, replies, k) is Descendants,
    ensures
        replies[k] matches ReplyView::Page { page } ==> all_there(
            page,
            workspace,
            run(DiscoveryView::fresh(workspace), replies.take(k)).found.seen,
            shown_in(DiscoveryView::fresh(workspace), replies),
        ),
{
    let fresh = DiscoveryView::fresh(workspace);
    let at = run(fresh, replies.take(k));
    lemma_fresh_is_well_formed(workspace);
    a_discovery_stays_well_formed(fresh, replies.take(k));
    match replies[k] {
        ReplyView::Page { page } => {
            a_page_of_descendants_is_shown(at, page);
            let shown = shown_in(fresh, replies);
            assert forall|i: int, id: Seq<char>|
                0 <= i < page.threads.len() && lies_in(#[trigger] page.threads[i], workspace) && page.threads[i].thread.get(
                    "id"@,
                ) == Some(Tree::Str(id)) && first_with(page.threads, i, id) implies at.found.seen.contains(id)
                || #[trigger] has_thread(shown, id) by {
                if !at.found.seen.contains(id) {
                    assert(has_thread(at.step(replies[k]).1, id));
                    lemma_shown_in(workspace, replies, k, id);
                }
            }
        },
        _ => {},
    }
}

/// A discovery asks for the loaded threads first. Before it is done, every one of them has been read,
/// and so has every root, unless it had been dealt with otherwise; and the catalog has been asked for.
pub proof fn every_loaded_thread_is_read(
    workspace: WorkspaceView,
    replies: Seq<ReplyView>,
    loaded: Seq<Seq<char>>,
    id: Seq<char>,
)
    requires
        run(DiscoveryView::fresh(workspace), replies).fetch() is Nothing,
    ensures
        DiscoveryView::fresh(workspace).fetch() is Loaded,
        replies.len() > 0,
        replies[0] == (ReplyView::Loaded { thread_ids: loaded }) && loaded.contains(id) ==> was_asked(
            workspace,
            replies,
            FetchView::Thread { thread_id: id },
        ),
        run(DiscoveryView::fresh(workspace), replies).found.roots.contains(id) ==> run(
            DiscoveryView::fresh(workspace),
            replies,
        ).found.seen.contains(id) || was_asked(workspace, replies, FetchView::Thread { thread_id: id }),
        was_asked(workspace, replies, FetchView::Page { cursor: None, archived: false }),
{
    lemma_on_the_way(workspace, replies);
}

/// Before a discovery is done, every thread in which a turn runs has been resumed.
pub proof fn every_active_thread_is_resumed(workspace: WorkspaceView, replies: Seq<ReplyView>, id: Seq<char>)
    requires
        run(DiscoveryView::fresh(workspace), replies).fetch() is Nothing,
        run(DiscoveryView::fresh(workspace), replies).found.active.contains(id),
    ensures
        was_asked(workspace, replies, FetchView::Resume { thread_id: id }),
{
    lemma_on_the_way(workspace, replies);
}

/// Some thread with this id, in which a turn runs, is among the threads.
pub open spec fn has_active(threads: Seq<FetchedView>, id: Seq<char>) -> bool {
    exists|i: int|
        0 <= i < threads.len() && (#[trigger] threads[i]).thread.get("id"@) == Some(Tree::Str(id))
            && threads[i].thread.get_in("status"@, "type"@) == Some(Tree::Str("active"@))
}

/// Of the first `n` threads of a page of the catalog, each of the workspace that is no sub-agent's is shown,
/// unless it had been dealt with, and no other thread is shown.
pub open spec fn shown_up_to(
    n: int,
    threads: Seq<FetchedView>,
    workspace: WorkspaceView,
    seen: Seq<Seq<char>>,
    shown: Seq<FetchedView>,
) -> bool {
    &&& 0 <= n <= threads.len()
    &&& forall|i: int, id: Seq<char>|
        0 <= i < n && lies_in(#[trigger] threads[i], workspace) && !is_subagent(threads[i].thread)
            && threads[i].thread.get("id"@) == Some(Tree::Str(id)) ==> seen.contains(id) || #[trigger] has_thread(shown, id)
    &&& forall|k: int| 0 <= k < shown.len() ==> threads.take(n).contains(#[trigger] shown[k])
}

proof fn lemma_catalog_order(found: FoundView, workspace: WorkspaceView, threads: Seq<FetchedView>) -> (n: int)
    ensures
        ({
            let scan = catalog_scan(found, workspace, threads);
            &&& shown_up_to(n, threads, workspace, found.seen, scan.shown)
            &&& n < threads.len() ==> scan.found.finished >= 5
            &&& scan.found.finished == found.finished + finished_in(scan.shown)
            &&& forall|x: Seq<char>| #[trigger]
                scan.found.active.contains(x) ==> found.active.contains(x) || has_active(scan.shown, x)
            &&& forall|x: Seq<char>| #[trigger]
                scan.found.roots.contains(x) ==> found.roots.contains(x) || has_thread(scan.shown, x)
        }),
    decreases threads.len(),
{
    if threads.len() == 0 {
        0
    } else {
        let front = threads.drop_last();
        let last = threads.last();
        let before = catalog_scan(found, workspace, front);
        let scan = catalog_scan(found, workspace, threads);
        let m = lemma_catalog_order(found, workspace, front);
        lemma_catalog_there(found, workspace, front);
        lemma_catalog_there(found, workspace, threads);
        if before.found.finished >= 5 {
            assert(threads.take(m) =~= front.take(m));
            assert(forall|i: int| 0 <= i < m ==> #[trigger] threads[i] == front[i]);
            m
        } else {
            let n = threads.len() as int;
            assert(threads.take(n) =~= threads);
            if scan.shown == before.shown {
                assert(scan.found == before.found);
            } else {
                let id = last.thread.str_at("id"@)->0;
                assert(scan.shown == before.shown.push(last));
                assert(scan.shown.drop_last() =~= before.shown);
                assert(scan.shown[before.shown.len() as int] == last);
                lemma_pushed(before.found.roots, id);
                assert forall|x: Seq<char>| #[trigger] scan.found.active.contains(x) implies found.active.contains(x)
                    || has_active(scan.shown, x) by {
                    let k = choose|k: int| 0 <= k < scan.found.active.len() && scan.found.active[k] == x;
                    if k < before.found.active.len() {
                        assert(before.found.active[k] == x);
                        assert(before.found.active.contains(x));
                        if has_active(before.shown, x) {
                            let i = choose|i: int|
                                0 <= i < before.shown.len() && (#[trigger] before.shown[i]).thread.get("id"@) == Some(
                                    Tree::Str(x),
                                ) && before.shown[i].thread.get_in("status"@, "type"@) == Some(Tree::Str("active"@));
                            assert(scan.shown[i] == before.shown[i]);
                        }
                    }
                }
                assert forall|x: Seq<char>| #[trigger] scan.found.roots.contains(x) implies found.roots.contains(x)
                    || has_thread(scan.shown, x) by {
                    if x != id {
                        let k = choose|k: int| 0 <= k < scan.found.roots.len() && scan.found.roots[k] == x;
                        assert(k < before.found.roots.len() && before.found.roots[k] == x);
                        assert(before.found.roots.contains(x));
                        if has_thread(before.shown, x) {
                            let i = choose|i: int|
                                0 <= i < before.shown.len() && (#[trigger] before.shown[i]).thread.get("id"@) == Some(
                                    Tree::Str(x),
                                );
                            assert(scan.shown[i] == before.shown[i]);
                        }
                    }
                }
            }
            assert forall|k: int| 0 <= k < scan.shown.len() implies threads.take(n).contains(#[trigger] scan.shown[k]) by {
                if k < before.shown.len() {
                    assert(scan.shown[k] == before.shown[k]);
                    let j = choose|j: int| 0 <= j < front.take(m).len() && front.take(m)[j] == before.shown[k];
                    assert(threads[j] == before.shown[k]);
                } else {
                    assert(threads[n - 1] == last);
                }
            }
            assert forall|i: int, id: Seq<char>|
                0 <= i < n && lies_in(#[trigger] threads[i], workspace) && !is_subagent(threads[i].thread)
                    && threads[i].thread.get("id"@) == Some(Tree::Str(id)) implies found.seen.contains(id)
                || #[trigger] has_thread(scan.shown, id) by {
                if i < front.len() {
                    assert(front[i] == threads[i]);
                    if m == front.len() {
                        if has_thread(before.shown, id) {
                            let j = choose|j: int|
                                0 <= j < before.shown.len() && (#[trigger] before.shown[j]).thread.get("id"@) == Some(
                                    Tree::Str(id),
                                );
                            assert(scan.shown[j] == before.shown[j]);
                        }
                    }
                } else {
                    assert(threads[i] == last);
                    if scan.shown == before.shown {
                        if !before.found.seen.contains(id) {
                            assert(scan.shown.len() == before.shown.len() + 1);
                        }
                    } else {
                        lemma_pushed(before.found.seen, id);
                    }
                    assert(scan.found.seen.contains(id));
                }
            }
            n
        }
    }
}

/// A page of the catalog is shown from its start, as far as five finished threads are shown; every finished
/// one counts. The descendants of what is shown, and of nothing else of the page, are to be listed, and
/// those in which a turn runs, and no others, are to be resumed.
pub proof fn a_page_of_the_catalog_is_shown_from_its_start(discovery: DiscoveryView, page: FetchedPageView)
    requires
        discovery.fetch() is Page,
    ensures
        ({
            let (next, shown) = discovery.step(ReplyView::Page { page });
            &&& exists|n: int|
                {
                    &&& #[trigger] shown_up_to(n, page.threads, discovery.workspace, discovery.found.seen, shown)
                    &&& n < page.threads.len() ==> next.found.finished >= 5
                }
            &&& next.found.finished == discovery.found.finished + finished_in(shown)
            &&& forall|x: Seq<char>| #[trigger]
                next.found.active.contains(x) ==> discovery.found.active.contains(x) || has_active(shown, x)
            &&& forall|x: Seq<char>| #[trigger]
                next.found.roots.contains(x) ==> discovery.found.roots.contains(x) || has_thread(shown, x)
        }),
{
    let n = lemma_catalog_order(discovery.found, discovery.workspace, page.threads);
}

/// A thread is finished where no turn runs in it.
pub proof fn a_thread_without_a_turn_is_finished(threads: Seq<FetchedView>, more: FetchedView)
    ensures
        finished_in(Seq::<FetchedView>::empty()) == 0,
        more.thread.get_in("status"@, "type"@) == Some(Tree::Str("active"@)) ==> finished_in(threads.push(more)) == finished_in(
            threads,
        ),
        more.thread.get_in("status"@, "type"@) != Some(Tree::Str("active"@)) ==> finished_in(threads.push(more))
            == finished_in(threads) + 1,
{
    assert(threads.push(more).drop_last() =~= threads);
    assert(threads.push(more).last() == more);
}

/// A call that fails shows nothing, and nothing is learned from it. What has been learned before stays,
/// whatever comes back, and the workspace is the same throughout.
pub proof fn a_call_that_fails_shows_nothing(discovery: DiscoveryView, reply: ReplyView)
    ensures
        discovery.step(ReplyView::Failed).1.len() == 0,
        discovery.step(ReplyView::Failed).0.found == discovery.found,
        discovery.step(reply).0.workspace == discovery.workspace,
        discovery.fetch() is Loaded ==> discovery.step(reply).1.len() == 0 && discovery.step(reply).0.found
            == discovery.found,
{
}

proof fn lemma_learned(discovery: DiscoveryView, reply: ReplyView)
    ensures
        forall|x: Seq<char>| discovery.found.roots.contains(x) ==> #[trigger] discovery.step(reply).0.found.roots.contains(x),
        forall|x: Seq<char>| discovery.found.active.contains(x) ==> #[trigger] discovery.step(reply).0.found.active.contains(x),
        forall|x: Seq<char>| discovery.found.seen.contains(x) ==> #[trigger] discovery.step(reply).0.found.seen.contains(x),
{
    let found = discovery.found;
    match reply {
        ReplyView::Page { page } => {
            lemma_catalog_there(found, discovery.workspace, page.threads);
            lemma_descendants_there(found, discovery.workspace, page.threads);
        },
        ReplyView::Thread { thread } => {
            match discovery.phase {
                PhaseView::ReadLoaded { rest } => {
                    lemma_pushed(found.seen, rest[0]);
                    lemma_pushed(found.active, rest[0]);
                    lemma_pushed(
                        found.roots,
                        match parent_of(thread.thread) {
                            Some(parent) => parent,
                            None => rest[0],
                        },
                    );
                },
                PhaseView::ReadRoots { rest } => {
                    lemma_pushed(found.seen, rest[0]);
                },
                _ => {},
            }
        },
        _ => {},
    }
}

/// What a discovery has learned by some reply it knows to its end: the roots, the threads in which a turn
/// runs, and the threads that have been dealt with.
pub proof fn what_has_been_learned_is_kept(workspace: WorkspaceView, replies: Seq<ReplyView>, k: int, id: Seq<char>)
    requires
        0 <= k <= replies.len(),
    ensures
        ({
            let then = run(DiscoveryView::fresh(workspace), replies.take(k)).found;
            let at_last = run(DiscoveryView::fresh(workspace), replies).found;
            &&& then.roots.contains(id) ==> at_last.roots.contains(id)
            &&& then.active.contains(id) ==> at_last.active.contains(id)
            &&& then.seen.contains(id) ==> at_last.seen.contains(id)
        }),
    decreases replies.len(),
{
    if k == replies.len() {
        assert(replies.take(k) =~= replies);
    } else {
        let front = replies.drop_last();
        assert(replies.take(k) =~= front.take(k));
        what_has_been_learned_is_kept(workspace, front, k, id);
        lemma_learned(run(DiscoveryView::fresh(workspace), front), replies.last());
    }
}

} // verus!
