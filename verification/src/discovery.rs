//! The threads of a workspace: which are asked for, and which are shown.
use vstd::prelude::*;

use crate::names::{
    a_sorted_list_ascends, add_name, ascending, copy_names, missing, missing_names, push_name, sort_names, sorted,
    with_name,
};
use crate::rows::{CodexWatchedWorkspaceRow, WorkspaceView};
use crate::text::{all_chars, clone_opt, opt_string};
use crate::thread::{
    fetched, is_subagent, parent_of, status_of, thread_is_active, thread_is_subagent, thread_matches_workspace,
    thread_parent_id, FetchedThread, FetchedView,
};

verus! {

/// How many finished threads of the catalog a workspace shows.
pub const RECENT_FINISHED_THREADS_PER_WORKSPACE: usize = 5;

/// How many threads one page of the catalog has.
pub const THREAD_CATALOG_PAGE_SIZE: u32 = 50;

/// How many pages of one listing are asked for at most.
pub const THREAD_CATALOG_MAX_PAGES: usize = 20;

/// Where a discovery stands. What is still to be asked for in a phase is listed in it.
#[derive(Debug, PartialEq, Eq)]
pub enum Phase {
    /// The threads that are loaded are to be listed.
    Loaded,
    /// The loaded threads are being read.
    ReadLoaded { rest: Vec<String> },
    /// The threads that loaded sub-agents belong to are being read.
    ReadRoots { rest: Vec<String> },
    /// The catalog is being listed, first without and then with what is archived.
    Catalog { archived: bool, cursor: Option<String>, pages: usize },
    /// The descendants of the threads that are shown are being listed.
    Descendants { rest: Vec<String>, archived: bool, cursor: Option<String>, pages: usize },
    /// The active threads are being resumed.
    Resume { rest: Vec<String> },
    Done,
}

pub enum PhaseView {
    Loaded,
    ReadLoaded { rest: Seq<Seq<char>> },
    ReadRoots { rest: Seq<Seq<char>> },
    Catalog { archived: bool, cursor: Option<Seq<char>>, pages: int },
    Descendants { rest: Seq<Seq<char>>, archived: bool, cursor: Option<Seq<char>>, pages: int },
    Resume { rest: Seq<Seq<char>> },
    Done,
}

impl View for Phase {
    type V = PhaseView;

    open spec fn view(&self) -> PhaseView {
        match self {
            Phase::Loaded => PhaseView::Loaded,
            Phase::ReadLoaded { rest } => PhaseView::ReadLoaded { rest: all_chars(rest@) },
            Phase::ReadRoots { rest } => PhaseView::ReadRoots { rest: all_chars(rest@) },
            Phase::Catalog { archived, cursor, pages } => PhaseView::Catalog {
                archived: *archived,
                cursor: opt_string(*cursor),
                pages: *pages as int,
            },
            Phase::Descendants { rest, archived, cursor, pages } => PhaseView::Descendants {
                rest: all_chars(rest@),
                archived: *archived,
                cursor: opt_string(*cursor),
                pages: *pages as int,
            },
            Phase::Resume { rest } => PhaseView::Resume { rest: all_chars(rest@) },
            Phase::Done => PhaseView::Done,
        }
    }
}

/// What is known of the threads of a workspace.
#[derive(Debug, PartialEq, Eq)]
pub struct Found {
    /// The threads that have been dealt with.
    pub seen: Vec<String>,
    /// The threads that are shown, or whose sub-agents are.
    pub roots: Vec<String>,
    /// The threads in which a turn runs.
    pub active: Vec<String>,
    /// How many finished threads of the catalog are shown.
    pub finished: usize,
}

pub struct FoundView {
    pub seen: Seq<Seq<char>>,
    pub roots: Seq<Seq<char>>,
    pub active: Seq<Seq<char>>,
    pub finished: int,
}

impl View for Found {
    type V = FoundView;

    open spec fn view(&self) -> FoundView {
        FoundView {
            seen: all_chars(self.seen@),
            roots: all_chars(self.roots@),
            active: all_chars(self.active@),
            finished: self.finished as int,
        }
    }
}

/// A page of a listing of threads.
#[derive(Debug, PartialEq)]
pub struct FetchedPage {
    pub threads: Vec<FetchedThread>,
    pub next_cursor: Option<String>,
}

pub struct FetchedPageView {
    pub threads: Seq<FetchedView>,
    pub next_cursor: Option<Seq<char>>,
}

impl View for FetchedPage {
    type V = FetchedPageView;

    open spec fn view(&self) -> FetchedPageView {
        FetchedPageView { threads: fetched(self.threads@), next_cursor: opt_string(self.next_cursor) }
    }
}

/// What the app-server is asked for.
#[derive(Debug, PartialEq, Eq)]
pub enum Fetch {
    Loaded,
    Thread { thread_id: String },
    Page { cursor: Option<String>, archived: bool },
    Descendants { root_thread_id: String, cursor: Option<String>, archived: bool },
    Resume { thread_id: String },
    /// Nothing more is asked for.
    Nothing,
}

pub enum FetchView {
    Loaded,
    Thread { thread_id: Seq<char> },
    Page { cursor: Option<Seq<char>>, archived: bool },
    Descendants { root_thread_id: Seq<char>, cursor: Option<Seq<char>>, archived: bool },
    Resume { thread_id: Seq<char> },
    Nothing,
}

impl View for Fetch {
    type V = FetchView;

    open spec fn view(&self) -> FetchView {
        match self {
            Fetch::Loaded => FetchView::Loaded,
            Fetch::Thread { thread_id } => FetchView::Thread { thread_id: thread_id@ },
            Fetch::Page { cursor, archived } => FetchView::Page { cursor: opt_string(*cursor), archived: *archived },
            Fetch::Descendants { root_thread_id, cursor, archived } => FetchView::Descendants {
                root_thread_id: root_thread_id@,
                cursor: opt_string(*cursor),
                archived: *archived,
            },
            Fetch::Resume { thread_id } => FetchView::Resume { thread_id: thread_id@ },
            Fetch::Nothing => FetchView::Nothing,
        }
    }
}

/// What the app-server answered.
#[derive(Debug, PartialEq)]
pub enum Reply {
    Loaded { thread_ids: Vec<String> },
    Thread { thread: FetchedThread },
    Page { page: FetchedPage },
    /// The call failed.
    Failed,
}

pub enum ReplyView {
    Loaded { thread_ids: Seq<Seq<char>> },
    Thread { thread: FetchedView },
    Page { page: FetchedPageView },
    Failed,
}

impl View for Reply {
    type V = ReplyView;

    open spec fn view(&self) -> ReplyView {
        match self {
            Reply::Loaded { thread_ids } => ReplyView::Loaded { thread_ids: all_chars(thread_ids@) },
            Reply::Thread { thread } => ReplyView::Thread { thread: thread@ },
            Reply::Page { page } => ReplyView::Page { page: page@ },
            Reply::Failed => ReplyView::Failed,
        }
    }
}

/// The search for the threads of a workspace.
pub struct Discovery {
    workspace: CodexWatchedWorkspaceRow,
    found: Found,
    phase: Phase,
}

pub struct DiscoveryView {
    pub workspace: WorkspaceView,
    pub found: FoundView,
    pub phase: PhaseView,
}

impl View for Discovery {
    type V = DiscoveryView;

    closed spec fn view(&self) -> DiscoveryView {
        DiscoveryView { workspace: self.workspace@, found: self.found@, phase: self.phase@ }
    }
}

impl DiscoveryView {
    /// Something is still to be asked for in every phase but the last, no listing goes on for too
    /// many pages, and the catalog is listed only while fewer finished threads are shown than may
    /// be.
    pub open spec fn wf(self) -> bool {
        &&& 0 <= self.found.finished <= RECENT_FINISHED_THREADS_PER_WORKSPACE
        &&& match self.phase {
            PhaseView::Loaded => self.found.finished == 0 && self.found.roots.len() == 0,
            PhaseView::ReadLoaded { rest } => rest.len() > 0 && self.found.finished == 0,
            PhaseView::ReadRoots { rest } => rest.len() > 0 && self.found.finished == 0
                && rest.no_duplicates() && forall|i: int|
                0 <= i < rest.len() ==> !self.found.seen.contains(#[trigger] rest[i]),
            PhaseView::Catalog { pages, .. } => 0 <= pages < THREAD_CATALOG_MAX_PAGES && self.found.finished
                < RECENT_FINISHED_THREADS_PER_WORKSPACE,
            PhaseView::Descendants { rest, pages, .. } => rest.len() > 0 && 0 <= pages < THREAD_CATALOG_MAX_PAGES,
            PhaseView::Resume { rest } => rest.len() > 0 && ascending(rest),
            PhaseView::Done => true,
        }
        &&& self.found.roots.no_duplicates()
    }

    /// Nothing has been asked for.
    pub open spec fn fresh(workspace: WorkspaceView) -> DiscoveryView {
        DiscoveryView {
            workspace,
            found: FoundView { seen: Seq::empty(), roots: Seq::empty(), active: Seq::empty(), finished: 0 },
            phase: PhaseView::Loaded,
        }
    }

    /// What is asked for next.
    pub open spec fn fetch(self) -> FetchView {
        match self.phase {
            PhaseView::Loaded => FetchView::Loaded,
            PhaseView::ReadLoaded { rest } => FetchView::Thread { thread_id: rest[0] },
            PhaseView::ReadRoots { rest } => FetchView::Thread { thread_id: rest[0] },
            PhaseView::Catalog { archived, cursor, .. } => FetchView::Page { cursor, archived },
            PhaseView::Descendants { rest, archived, cursor, .. } => FetchView::Descendants {
                root_thread_id: rest[0],
                cursor,
                archived,
            },
            PhaseView::Resume { rest } => FetchView::Resume { thread_id: rest[0] },
            PhaseView::Done => FetchView::Nothing,
        }
    }
}

/// The phase after the catalog's descendants: the active threads, each once, in order.
pub open spec fn resume_phase(found: FoundView) -> PhaseView {
    let rest = sorted(found.active);
    if rest.len() == 0 {
        PhaseView::Done
    } else {
        PhaseView::Resume { rest }
    }
}

/// The phase after the catalog.
pub open spec fn descendants_phase(found: FoundView) -> PhaseView {
    if found.roots.len() == 0 {
        resume_phase(found)
    } else {
        PhaseView::Descendants { rest: found.roots, archived: false, cursor: None, pages: 0 }
    }
}

pub open spec fn catalog_phase() -> PhaseView {
    PhaseView::Catalog { archived: false, cursor: None, pages: 0 }
}

/// The phase after the loaded threads.
pub open spec fn roots_phase(found: FoundView) -> PhaseView {
    let rest = missing(found.roots, found.seen);
    if rest.len() == 0 {
        catalog_phase()
    } else {
        PhaseView::ReadRoots { rest }
    }
}

/// A loaded thread of the workspace is shown; so is the one that it was spawned from.
pub open spec fn loaded_found(found: FoundView, thread_id: Seq<char>, thread: FetchedView) -> FoundView {
    FoundView {
        roots: with_name(
            found.roots,
            match parent_of(thread.thread) {
                Some(parent) => parent,
                None => thread_id,
            },
        ),
        seen: with_name(found.seen, thread_id),
        active: if status_of(thread.thread) == Some("active"@) {
            found.active.push(thread_id)
        } else {
            found.active
        },
        ..found
    }
}

/// What is known, and shown, after some threads of a page.
pub struct ScanView {
    pub found: FoundView,
    pub shown: Seq<FetchedView>,
}

impl ScanView {
    /// As many finished threads are shown as may be.
    pub open spec fn is_full(self) -> bool {
        self.found.finished >= RECENT_FINISHED_THREADS_PER_WORKSPACE
    }

    /// After one thread of the catalog. Threads of other workspaces, of sub-agents, and those that
    /// have been dealt with are passed over.
    pub open spec fn catalogued(self, workspace: WorkspaceView, thread: FetchedView) -> ScanView {
        match thread.thread.str_at("id"@) {
            Some(id) => if !thread.is_in(workspace) || is_subagent(thread.thread) || self.found.seen.contains(id) {
                self
            } else {
                let active = status_of(thread.thread) == Some("active"@);
                ScanView {
                    found: FoundView {
                        seen: self.found.seen.push(id),
                        roots: with_name(self.found.roots, id),
                        active: if active {
                            self.found.active.push(id)
                        } else {
                            self.found.active
                        },
                        finished: if active {
                            self.found.finished
                        } else {
                            self.found.finished + 1
                        },
                    },
                    shown: self.shown.push(thread),
                }
            },
            None => self,
        }
    }

    /// After one descendant of a thread that is shown.
    pub open spec fn descended(self, workspace: WorkspaceView, thread: FetchedView) -> ScanView {
        match thread.thread.str_at("id"@) {
            Some(id) => if self.found.seen.contains(id) {
                self
            } else {
                ScanView {
                    found: FoundView { seen: self.found.seen.push(id), ..self.found },
                    shown: if thread.is_in(workspace) {
                        self.shown.push(thread)
                    } else {
                        self.shown
                    },
                }
            },
            None => self,
        }
    }
}

/// After the threads of a page of the catalog, as far as they may be shown.
pub open spec fn catalog_scan(found: FoundView, workspace: WorkspaceView, threads: Seq<FetchedView>) -> ScanView
    decreases threads.len(),
{
    if threads.len() == 0 {
        ScanView { found, shown: Seq::empty() }
    } else {
        let before = catalog_scan(found, workspace, threads.drop_last());
        if before.is_full() {
            before
        } else {
            before.catalogued(workspace, threads.last())
        }
    }
}

/// After the threads of a page of descendants.
pub open spec fn descendant_scan(found: FoundView, workspace: WorkspaceView, threads: Seq<FetchedView>) -> ScanView
    decreases threads.len(),
{
    if threads.len() == 0 {
        ScanView { found, shown: Seq::empty() }
    } else {
        descendant_scan(found, workspace, threads.drop_last()).descended(workspace, threads.last())
    }
}

/// The listing goes on with another page.
pub open spec fn has_next(page: FetchedPageView, pages: int) -> bool {
    page.next_cursor is Some && pages + 1 < THREAD_CATALOG_MAX_PAGES
}

/// The phase after the descendants of one thread have been listed, archived or not.
pub open spec fn next_listing(found: FoundView, rest: Seq<Seq<char>>, archived: bool) -> PhaseView {
    if !archived {
        PhaseView::Descendants { rest, archived: true, cursor: None, pages: 0 }
    } else if rest.len() <= 1 {
        resume_phase(found)
    } else {
        PhaseView::Descendants { rest: rest.drop_first(), archived: false, cursor: None, pages: 0 }
    }
}

impl DiscoveryView {
    pub open spec fn at(self, found: FoundView, phase: PhaseView) -> DiscoveryView {
        DiscoveryView { workspace: self.workspace, found, phase }
    }

    /// Where the discovery stands after a reply, and the threads that are then shown. A reply that
    /// is not what was asked for counts as a call that failed.
    pub open spec fn step(self, reply: ReplyView) -> (DiscoveryView, Seq<FetchedView>) {
        match self.phase {
            PhaseView::Loaded => {
                let phase = match reply {
                    ReplyView::Loaded { thread_ids } => if thread_ids.len() > 0 {
                        PhaseView::ReadLoaded { rest: thread_ids }
                    } else {
                        roots_phase(self.found)
                    },
                    _ => roots_phase(self.found),
                };
                (self.at(self.found, phase), Seq::empty())
            },
            PhaseView::ReadLoaded { rest } => {
                let shown = self.shown_thread(reply);
                let found = if shown.len() > 0 {
                    loaded_found(self.found, rest[0], shown[0])
                } else {
                    self.found
                };
                let phase = if rest.len() <= 1 {
                    roots_phase(found)
                } else {
                    PhaseView::ReadLoaded { rest: rest.drop_first() }
                };
                (self.at(found, phase), shown)
            },
            PhaseView::ReadRoots { rest } => {
                let shown = self.shown_thread(reply);
                let found = if shown.len() > 0 {
                    FoundView { seen: with_name(self.found.seen, rest[0]), ..self.found }
                } else {
                    self.found
                };
                let phase = if rest.len() <= 1 {
                    catalog_phase()
                } else {
                    PhaseView::ReadRoots { rest: rest.drop_first() }
                };
                (self.at(found, phase), shown)
            },
            PhaseView::Catalog { archived, pages, .. } => match reply {
                ReplyView::Page { page } => {
                    let scan = catalog_scan(self.found, self.workspace, page.threads);
                    let phase = if scan.is_full() {
                        descendants_phase(scan.found)
                    } else if has_next(page, pages) {
                        PhaseView::Catalog { archived, cursor: page.next_cursor, pages: pages + 1 }
                    } else if !archived {
                        PhaseView::Catalog { archived: true, cursor: None, pages: 0 }
                    } else {
                        descendants_phase(scan.found)
                    };
                    (self.at(scan.found, phase), scan.shown)
                },
                _ => (self.at(self.found, descendants_phase(self.found)), Seq::empty()),
            },
            PhaseView::Descendants { rest, archived, pages, .. } => match reply {
                ReplyView::Page { page } => {
                    let scan = descendant_scan(self.found, self.workspace, page.threads);
                    let phase = if has_next(page, pages) {
                        PhaseView::Descendants { rest, archived, cursor: page.next_cursor, pages: pages + 1 }
                    } else {
                        next_listing(scan.found, rest, archived)
                    };
                    (self.at(scan.found, phase), scan.shown)
                },
                _ => (self.at(self.found, next_listing(self.found, rest, archived)), Seq::empty()),
            },
            PhaseView::Resume { rest } => {
                let phase = if rest.len() <= 1 {
                    PhaseView::Done
                } else {
                    PhaseView::Resume { rest: rest.drop_first() }
                };
                (
                    self.at(self.found, phase),
                    match reply {
                        ReplyView::Thread { thread } => seq![thread],
                        _ => Seq::empty(),
                    },
                )
            },
            PhaseView::Done => (self, Seq::empty()),
        }
    }

    /// The thread that has been read, where it is one of the workspace.
    pub open spec fn shown_thread(self, reply: ReplyView) -> Seq<FetchedView> {
        match reply {
            ReplyView::Thread { thread } => if thread.is_in(self.workspace) {
                seq![thread]
            } else {
                Seq::empty()
            },
            _ => Seq::empty(),
        }
    }
}


proof fn lemma_missing(names: Seq<Seq<char>>, seen: Seq<Seq<char>>)
    requires
        names.no_duplicates(),
    ensures
        missing(names, seen).no_duplicates(),
        forall|i: int| 0 <= i < missing(names, seen).len() ==> !seen.contains(#[trigger] missing(names, seen)[i]),
{
    let wanted = |name: Seq<char>| !seen.contains(name);
    lemma_filter_once(names, wanted);
    assert forall|i: int| 0 <= i < missing(names, seen).len() implies !seen.contains(
        #[trigger] missing(names, seen)[i],
    ) by {
        assert(names.filter(wanted).contains(names.filter(wanted)[i]));
    }
}

proof fn lemma_filter_once(names: Seq<Seq<char>>, wanted: spec_fn(Seq<char>) -> bool)
    requires
        names.no_duplicates(),
    ensures
        names.filter(wanted).no_duplicates(),
        forall|x: Seq<char>| #[trigger] names.filter(wanted).contains(x) <==> names.contains(x) && wanted(x),
    decreases names.len(),
{
    reveal(Seq::filter);
    if names.len() > 0 {
        let front = names.drop_last();
        let last = names.last();
        assert(front.no_duplicates());
        lemma_filter_once(front, wanted);
        let kept = front.filter(wanted);
        assert(!kept.contains(last)) by {
            if kept.contains(last) {
                assert(front.contains(last));
                let i = choose|i: int| 0 <= i < front.len() && front[i] == last;
                assert(names[i] == names[names.len() - 1]);
            }
        }
        let r = names.filter(wanted);
        assert(r.no_duplicates()) by {
            assert forall|i: int, j: int| 0 <= i < r.len() && 0 <= j < r.len() && i != j implies r[i] != r[j] by {
                if i == kept.len() {
                    assert(kept.contains(r[j]));
                } else if j == kept.len() {
                    assert(kept.contains(r[i]));
                }
            }
        }
        assert forall|x: Seq<char>| #[trigger] r.contains(x) <==> names.contains(x) && wanted(x) by {
            if r.contains(x) {
                let i = choose|i: int| 0 <= i < r.len() && r[i] == x;
                if i < kept.len() {
                    assert(kept.contains(x));
                    let k = choose|k: int| 0 <= k < front.len() && front[k] == x;
                    assert(names[k] == x);
                } else {
                    assert(names[names.len() - 1] == x);
                }
            }
            if names.contains(x) && wanted(x) {
                let k = choose|k: int| 0 <= k < names.len() && names[k] == x;
                if k < front.len() {
                    assert(front[k] == x);
                    assert(kept.contains(x));
                    let i = choose|i: int| 0 <= i < kept.len() && kept[i] == x;
                    assert(r[i] == x);
                } else {
                    assert(r[kept.len() as int] == x);
                }
            }
        }
    }
}

proof fn lemma_with_name_once(names: Seq<Seq<char>>, name: Seq<char>)
    requires
        names.no_duplicates(),
    ensures
        with_name(names, name).no_duplicates(),
        with_name(names, name).contains(name),
        forall|x: Seq<char>| names.contains(x) ==> #[trigger] with_name(names, name).contains(x),
{
    let r = with_name(names, name);
    if !names.contains(name) {
        assert forall|i: int, j: int| 0 <= i < r.len() && 0 <= j < r.len() && i != j implies r[i] != r[j] by {
            if i == names.len() {
                assert(names.contains(r[j]));
            } else if j == names.len() {
                assert(names.contains(r[i]));
            }
        }
        assert(r[names.len() as int] == name);
        assert forall|x: Seq<char>| names.contains(x) implies #[trigger] r.contains(x) by {
            let i = choose|i: int| 0 <= i < names.len() && names[i] == x;
            assert(r[i] == x);
        }
    }
}

proof fn lemma_push_keeps(names: Seq<Seq<char>>, name: Seq<char>)
    ensures
        names.push(name).contains(name),
        forall|x: Seq<char>| names.contains(x) ==> #[trigger] names.push(name).contains(x),
        forall|x: Seq<char>| #[trigger] names.push(name).contains(x) ==> names.contains(x) || x == name,
{
    assert(names.push(name)[names.len() as int] == name);
    assert forall|x: Seq<char>| names.contains(x) implies #[trigger] names.push(name).contains(x) by {
        let i = choose|i: int| 0 <= i < names.len() && names[i] == x;
        assert(names.push(name)[i] == x);
    }
}

/// The threads are of the workspace, have an id, and no two of them have the same. None of them had
/// been dealt with, and all of them have been then.
pub open spec fn newly_shown(shown: Seq<FetchedView>, workspace: WorkspaceView, before: FoundView, after: FoundView) -> bool {
    &&& forall|i: int|
        0 <= i < shown.len() ==> {
            let id = (#[trigger] shown[i]).thread.str_at("id"@);
            &&& shown[i].is_in(workspace)
            &&& id matches Some(id) && !before.seen.contains(id) && after.seen.contains(id)
        }
    &&& forall|i: int, j: int|
        0 <= i < j < shown.len() ==> (#[trigger] shown[i]).thread.str_at("id"@) != (#[trigger] shown[j]).thread.str_at(
            "id"@,
        )
}

/// How many of the threads are finished.
pub open spec fn finished_in(threads: Seq<FetchedView>) -> nat
    decreases threads.len(),
{
    if threads.len() == 0 {
        0
    } else {
        finished_in(threads.drop_last()) + if status_of(threads.last().thread) == Some("active"@) {
            0nat
        } else {
            1nat
        }
    }
}

proof fn lemma_shown_push(
    shown: Seq<FetchedView>,
    workspace: WorkspaceView,
    before: FoundView,
    middle: FoundView,
    after: FoundView,
    thread: FetchedView,
)
    requires
        newly_shown(shown, workspace, before, middle),
        thread.thread.str_at("id"@) is Some,
        thread.is_in(workspace),
        !middle.seen.contains(thread.thread.str_at("id"@)->0),
        after.seen == middle.seen.push(thread.thread.str_at("id"@)->0),
        forall|x: Seq<char>| before.seen.contains(x) ==> #[trigger] middle.seen.contains(x),
    ensures
        newly_shown(shown.push(thread), workspace, before, after),
{
    let id = thread.thread.str_at("id"@)->0;
    let r = shown.push(thread);
    lemma_push_keeps(middle.seen, id);
    assert forall|i: int| 0 <= i < r.len() implies {
        let id = (#[trigger] r[i]).thread.str_at("id"@);
        &&& r[i].is_in(workspace)
        &&& id matches Some(id) && !before.seen.contains(id) && after.seen.contains(id)
    } by {
        if i < shown.len() {
            assert(r[i] == shown[i]);
        }
    }
    assert forall|i: int, j: int| 0 <= i < j < r.len() implies (#[trigger] r[i]).thread.str_at("id"@) != (
    #[trigger] r[j]).thread.str_at("id"@) by {
        assert(r[i] == shown[i]);
        if j < shown.len() {
            assert(r[j] == shown[j]);
        }
    }
}

proof fn lemma_shown_weaken(
    shown: Seq<FetchedView>,
    workspace: WorkspaceView,
    before: FoundView,
    middle: FoundView,
    after: FoundView,
)
    requires
        newly_shown(shown, workspace, before, middle),
        forall|x: Seq<char>| middle.seen.contains(x) ==> #[trigger] after.seen.contains(x),
    ensures
        newly_shown(shown, workspace, before, after),
{
    assert forall|i: int| 0 <= i < shown.len() implies {
        let id = (#[trigger] shown[i]).thread.str_at("id"@);
        &&& shown[i].is_in(workspace)
        &&& id matches Some(id) && !before.seen.contains(id) && after.seen.contains(id)
    } by {
        let id = shown[i].thread.str_at("id"@);
        assert(after.seen.contains(id->0));
    }
}

proof fn lemma_catalog_scan(found: FoundView, workspace: WorkspaceView, threads: Seq<FetchedView>)
    requires
        0 <= found.finished <= RECENT_FINISHED_THREADS_PER_WORKSPACE,
        found.roots.no_duplicates(),
    ensures
        ({
            let scan = catalog_scan(found, workspace, threads);
            &&& scan.found.finished <= RECENT_FINISHED_THREADS_PER_WORKSPACE
            &&& scan.found.finished == found.finished + finished_in(scan.shown)
            &&& scan.found.roots.no_duplicates()
            &&& newly_shown(scan.shown, workspace, found, scan.found)
            &&& forall|x: Seq<char>| found.seen.contains(x) ==> #[trigger] scan.found.seen.contains(x)
            &&& forall|i: int| 0 <= i < scan.shown.len() ==> !is_subagent((#[trigger] scan.shown[i]).thread)
        }),
    decreases threads.len(),
{
    if threads.len() > 0 {
        lemma_catalog_scan(found, workspace, threads.drop_last());
        let before = catalog_scan(found, workspace, threads.drop_last());
        let thread = threads.last();
        let scan = catalog_scan(found, workspace, threads);
        if !before.is_full() {
            if scan.shown != before.shown {
                let id = thread.thread.str_at("id"@)->0;
                lemma_with_name_once(before.found.roots, id);
                lemma_push_keeps(before.found.seen, id);
                lemma_shown_push(before.shown, workspace, found, before.found, scan.found, thread);
                assert(scan.shown == before.shown.push(thread));
                assert(scan.shown.drop_last() =~= before.shown);
                assert forall|i: int| 0 <= i < scan.shown.len() implies !is_subagent(
                    (#[trigger] scan.shown[i]).thread,
                ) by {
                    if i < before.shown.len() {
                        assert(scan.shown[i] == before.shown[i]);
                    }
                }
            } else {
                assert(scan.found == before.found) by {
                    if scan.found != before.found {
                        assert(scan.shown.len() == before.shown.len() + 1);
                    }
                }
            }
        }
    }
}

proof fn lemma_descendant_scan(found: FoundView, workspace: WorkspaceView, threads: Seq<FetchedView>)
    ensures
        ({
            let scan = descendant_scan(found, workspace, threads);
            &&& scan.found.finished == found.finished
            &&& scan.found.roots == found.roots
            &&& scan.found.active == found.active
            &&& newly_shown(scan.shown, workspace, found, scan.found)
            &&& forall|x: Seq<char>| found.seen.contains(x) ==> #[trigger] scan.found.seen.contains(x)
        }),
    decreases threads.len(),
{
    if threads.len() > 0 {
        lemma_descendant_scan(found, workspace, threads.drop_last());
        let before = descendant_scan(found, workspace, threads.drop_last());
        let thread = threads.last();
        let scan = descendant_scan(found, workspace, threads);
        match thread.thread.str_at("id"@) {
            Some(id) => {
                if !before.found.seen.contains(id) {
                    lemma_push_keeps(before.found.seen, id);
                    if thread.is_in(workspace) {
                        lemma_shown_push(before.shown, workspace, found, before.found, scan.found, thread);
                    } else {
                        lemma_shown_weaken(before.shown, workspace, found, before.found, scan.found);
                    }
                }
            },
            None => {},
        }
    }
}

proof fn lemma_drop_first(names: Seq<Seq<char>>)
    requires
        names.len() > 0,
    ensures
        names.no_duplicates() ==> names.drop_first().no_duplicates(),
        ascending(names) ==> ascending(names.drop_first()),
        forall|i: int| 0 <= i < names.len() - 1 ==> #[trigger] names.drop_first()[i] == names[i + 1],
{
}

/// Every step keeps what holds of a discovery.
pub proof fn every_step_keeps_a_discovery_well_formed(discovery: DiscoveryView, reply: ReplyView)
    requires
        discovery.wf(),
    ensures
        discovery.step(reply).0.wf(),
        DiscoveryView::fresh(discovery.workspace).wf(),
{
    let next = discovery.step(reply).0;
    let found = discovery.found;
    match discovery.phase {
        PhaseView::Loaded => {
            lemma_missing(found.roots, found.seen);
        },
        PhaseView::ReadLoaded { rest } => {
            let shown = discovery.shown_thread(reply);
            if shown.len() > 0 {
                let root = match parent_of(shown[0].thread) {
                    Some(parent) => parent,
                    None => rest[0],
                };
                lemma_with_name_once(found.roots, root);
            }
            lemma_missing(next.found.roots, next.found.seen);
        },
        PhaseView::ReadRoots { rest } => {
            lemma_drop_first(rest);
            if rest.len() > 1 {
                assert forall|i: int| 0 <= i < rest.len() - 1 implies !next.found.seen.contains(
                    #[trigger] rest.drop_first()[i],
                ) by {
                    assert(rest[i + 1] != rest[0]);
                    assert(!found.seen.contains(rest[i + 1]));
                    lemma_push_keeps(found.seen, rest[0]);
                }
            }
        },
        PhaseView::Catalog { .. } => {
            match reply {
                ReplyView::Page { page } => {
                    lemma_catalog_scan(found, discovery.workspace, page.threads);
                },
                _ => {},
            }
            a_sorted_list_ascends(next.found.active);
        },
        PhaseView::Descendants { rest, .. } => {
            match reply {
                ReplyView::Page { page } => {
                    lemma_descendant_scan(found, discovery.workspace, page.threads);
                },
                _ => {},
            }
            a_sorted_list_ascends(next.found.active);
        },
        PhaseView::Resume { rest } => {
            lemma_drop_first(rest);
        },
        PhaseView::Done => {},
    }
}

/// Where a discovery stands after some replies.
pub open spec fn run(discovery: DiscoveryView, replies: Seq<ReplyView>) -> DiscoveryView
    decreases replies.len(),
{
    if replies.len() == 0 {
        discovery
    } else {
        run(discovery, replies.drop_last()).step(replies.last()).0
    }
}

/// The threads that are shown over some replies, in their order.
pub open spec fn shown_in(discovery: DiscoveryView, replies: Seq<ReplyView>) -> Seq<FetchedView>
    decreases replies.len(),
{
    if replies.len() == 0 {
        Seq::empty()
    } else {
        let before = run(discovery, replies.drop_last());
        shown_in(discovery, replies.drop_last()) + before.step(replies.last()).1
    }
}

/// The threads that are shown from listings: from the catalog, and with `descendants` from the
/// listings of descendants too.
pub open spec fn shown_from_listings(discovery: DiscoveryView, replies: Seq<ReplyView>, descendants: bool) -> Seq<
    FetchedView,
>
    decreases replies.len(),
{
    if replies.len() == 0 {
        Seq::empty()
    } else {
        let before = run(discovery, replies.drop_last());
        let shown = shown_from_listings(discovery, replies.drop_last(), descendants);
        if before.phase is Catalog || (descendants && before.phase is Descendants) {
            shown + before.step(replies.last()).1
        } else {
            shown
        }
    }
}

/// What holds of a discovery holds after any replies.
pub proof fn a_discovery_stays_well_formed(discovery: DiscoveryView, replies: Seq<ReplyView>)
    requires
        discovery.wf(),
    ensures
        run(discovery, replies).wf(),
        run(discovery, replies).workspace == discovery.workspace,
    decreases replies.len(),
{
    if replies.len() > 0 {
        a_discovery_stays_well_formed(discovery, replies.drop_last());
        every_step_keeps_a_discovery_well_formed(run(discovery, replies.drop_last()), replies.last());
    }
}

proof fn lemma_finished_adds(a: Seq<FetchedView>, b: Seq<FetchedView>)
    ensures
        finished_in(a + b) == finished_in(a) + finished_in(b),
    decreases b.len(),
{
    if b.len() == 0 {
        assert(a + b =~= a);
    } else {
        lemma_finished_adds(a, b.drop_last());
        assert((a + b).drop_last() =~= a + b.drop_last());
        assert((a + b).last() == b.last());
    }
}

/// Whatever the app-server answers, no more finished threads of the catalog are shown than may be,
/// and none of them is a sub-agent's.
pub proof fn few_finished_threads_are_shown(workspace: WorkspaceView, replies: Seq<ReplyView>)
    ensures
        finished_in(shown_from_listings(DiscoveryView::fresh(workspace), replies, false))
            <= RECENT_FINISHED_THREADS_PER_WORKSPACE,
        forall|i: int|
            0 <= i < shown_from_listings(DiscoveryView::fresh(workspace), replies, false).len() ==> !is_subagent(
                (#[trigger] shown_from_listings(DiscoveryView::fresh(workspace), replies, false)[i]).thread,
            ),
{
    lemma_finished(workspace, replies);
}

proof fn lemma_finished(workspace: WorkspaceView, replies: Seq<ReplyView>)
    ensures
        ({
            let fresh = DiscoveryView::fresh(workspace);
            let shown = shown_from_listings(fresh, replies, false);
            &&& finished_in(shown) == run(fresh, replies).found.finished
            &&& run(fresh, replies).wf()
            &&& forall|i: int| 0 <= i < shown.len() ==> !is_subagent((#[trigger] shown[i]).thread)
        }),
    decreases replies.len(),
{
    let fresh = DiscoveryView::fresh(workspace);
    if replies.len() == 0 {
        every_step_keeps_a_discovery_well_formed(fresh, ReplyView::Failed);
    } else {
        let front = replies.drop_last();
        let reply = replies.last();
        lemma_finished(workspace, front);
        let before = run(fresh, front);
        let shown = shown_from_listings(fresh, front, false);
        every_step_keeps_a_discovery_well_formed(before, reply);
        match before.phase {
            PhaseView::Catalog { .. } => {
                match reply {
                    ReplyView::Page { page } => {
                        lemma_catalog_scan(before.found, before.workspace, page.threads);
                    },
                    _ => {},
                }
                let more = before.step(reply).1;
                lemma_finished_adds(shown, more);
                assert forall|i: int| 0 <= i < (shown + more).len() implies !is_subagent(
                    (#[trigger] (shown + more)[i]).thread,
                ) by {
                    if i < shown.len() {
                        assert((shown + more)[i] == shown[i]);
                    } else {
                        assert((shown + more)[i] == more[i - shown.len()]);
                    }
                }
            },
            PhaseView::Descendants { .. } => {
                match reply {
                    ReplyView::Page { page } => {
                        lemma_descendant_scan(before.found, before.workspace, page.threads);
                    },
                    _ => {},
                }
            },
            _ => {},
        }
    }
}

proof fn lemma_seen_grows(discovery: DiscoveryView, reply: ReplyView)
    requires
        discovery.wf(),
    ensures
        forall|x: Seq<char>|
            discovery.found.seen.contains(x) ==> #[trigger] discovery.step(reply).0.found.seen.contains(x),
{
    let found = discovery.found;
    match discovery.phase {
        PhaseView::ReadLoaded { rest } => {
            lemma_push_keeps(found.seen, rest[0]);
        },
        PhaseView::ReadRoots { rest } => {
            lemma_push_keeps(found.seen, rest[0]);
        },
        PhaseView::Catalog { .. } => {
            match reply {
                ReplyView::Page { page } => {
                    lemma_catalog_scan(found, discovery.workspace, page.threads);
                },
                _ => {},
            }
        },
        PhaseView::Descendants { .. } => {
            match reply {
                ReplyView::Page { page } => {
                    lemma_descendant_scan(found, discovery.workspace, page.threads);
                },
                _ => {},
            }
        },
        _ => {},
    }
}

proof fn lemma_shown_join(
    a: Seq<FetchedView>,
    b: Seq<FetchedView>,
    workspace: WorkspaceView,
    before: FoundView,
    middle: FoundView,
    after: FoundView,
)
    requires
        newly_shown(a, workspace, before, middle),
        newly_shown(b, workspace, middle, after),
        forall|x: Seq<char>| before.seen.contains(x) ==> #[trigger] middle.seen.contains(x),
        forall|x: Seq<char>| middle.seen.contains(x) ==> #[trigger] after.seen.contains(x),
    ensures
        newly_shown(a + b, workspace, before, after),
{
    let r = a + b;
    assert forall|i: int| 0 <= i < r.len() implies {
        let id = (#[trigger] r[i]).thread.str_at("id"@);
        &&& r[i].is_in(workspace)
        &&& id matches Some(id) && !before.seen.contains(id) && after.seen.contains(id)
    } by {
        let id = r[i].thread.str_at("id"@);
        if i < a.len() {
            assert(r[i] == a[i]);
            assert(after.seen.contains(id->0));
        } else {
            assert(r[i] == b[i - a.len()]);
            if before.seen.contains(id->0) {
                assert(middle.seen.contains(id->0));
            }
        }
    }
    assert forall|i: int, j: int| 0 <= i < j < r.len() implies (#[trigger] r[i]).thread.str_at("id"@) != (
    #[trigger] r[j]).thread.str_at("id"@) by {
        if j < a.len() {
            assert(r[i] == a[i] && r[j] == a[j]);
        } else if i < a.len() {
            assert(r[i] == a[i] && r[j] == b[j - a.len()]);
        } else {
            assert(r[i] == b[i - a.len()] && r[j] == b[j - a.len()]);
        }
    }
}

/// Whatever the app-server answers, the threads that are shown from listings are of the workspace,
/// and none of them is shown twice.
pub proof fn no_listed_thread_is_shown_twice(workspace: WorkspaceView, replies: Seq<ReplyView>)
    ensures
        newly_shown(
            shown_from_listings(DiscoveryView::fresh(workspace), replies, true),
            workspace,
            DiscoveryView::fresh(workspace).found,
            run(DiscoveryView::fresh(workspace), replies).found,
        ),
    decreases replies.len(),
{
    let fresh = DiscoveryView::fresh(workspace);
    every_step_keeps_a_discovery_well_formed(fresh, ReplyView::Failed);
    if replies.len() > 0 {
        let front = replies.drop_last();
        let reply = replies.last();
        no_listed_thread_is_shown_twice(workspace, front);
        a_discovery_stays_well_formed(fresh, front);
        let before = run(fresh, front);
        let shown = shown_from_listings(fresh, front, true);
        let after = before.step(reply).0;
        lemma_seen_grows(before, reply);
        match before.phase {
            PhaseView::Catalog { .. } => {
                match reply {
                    ReplyView::Page { page } => {
                        lemma_catalog_scan(before.found, workspace, page.threads);
                    },
                    _ => {},
                }
                lemma_shown_join(shown, before.step(reply).1, workspace, fresh.found, before.found, after.found);
            },
            PhaseView::Descendants { .. } => {
                match reply {
                    ReplyView::Page { page } => {
                        lemma_descendant_scan(before.found, workspace, page.threads);
                    },
                    _ => {},
                }
                lemma_shown_join(shown, before.step(reply).1, workspace, fresh.found, before.found, after.found);
            },
            _ => {
                lemma_shown_weaken(shown, workspace, fresh.found, before.found, after.found);
            },
        }
    }
}

/// Before threads are resumed, a thread is shown only if the workspace covers it.
pub proof fn only_threads_of_the_workspace_are_shown(discovery: DiscoveryView, reply: ReplyView)
    requires
        discovery.wf(),
        !(discovery.phase is Resume),
    ensures
        forall|i: int|
            0 <= i < discovery.step(reply).1.len() ==> (#[trigger] discovery.step(reply).1[i]).is_in(
                discovery.workspace,
            ),
{
    match discovery.phase {
        PhaseView::Catalog { .. } => {
            match reply {
                ReplyView::Page { page } => {
                    lemma_catalog_scan(discovery.found, discovery.workspace, page.threads);
                },
                _ => {},
            }
        },
        PhaseView::Descendants { .. } => {
            match reply {
                ReplyView::Page { page } => {
                    lemma_descendant_scan(discovery.found, discovery.workspace, page.threads);
                },
                _ => {},
            }
        },
        _ => {},
    }
}

/// The thread that a loaded sub-agent belongs to is read before the catalog is listed, unless it was
/// loaded itself; and the catalog is listed next only if there is no such thread left.
pub proof fn the_threads_of_sub_agents_are_read_before_the_catalog(found: FoundView, root: Seq<char>)
    requires
        found.roots.no_duplicates(),
        found.roots.contains(root),
    ensures
        !found.seen.contains(root) ==> (roots_phase(found) matches PhaseView::ReadRoots { rest } && rest.contains(
            root,
        )),
        roots_phase(found) is Catalog ==> found.seen.contains(root),
{
    let wanted = |name: Seq<char>| !found.seen.contains(name);
    lemma_filter_once(found.roots, wanted);
    if !found.seen.contains(root) {
        assert(missing(found.roots, found.seen).contains(root));
    }
}

/// Which of its phases a discovery is in.
pub open spec fn rank(phase: PhaseView) -> int {
    match phase {
        PhaseView::Loaded => 0,
        PhaseView::ReadLoaded { .. } => 1,
        PhaseView::ReadRoots { .. } => 2,
        PhaseView::Catalog { .. } => 3,
        PhaseView::Descendants { .. } => 4,
        PhaseView::Resume { .. } => 5,
        PhaseView::Done => 6,
    }
}

/// How many pages a listing, without and then with what is archived, may still have.
pub open spec fn pages_left(archived: bool, pages: int) -> int {
    THREAD_CATALOG_MAX_PAGES - pages + if archived {
        0int
    } else {
        THREAD_CATALOG_MAX_PAGES as int
    }
}

/// How often something may still be asked for in a phase.
pub open spec fn left(phase: PhaseView) -> int {
    match phase {
        PhaseView::ReadLoaded { rest } => rest.len() as int,
        PhaseView::ReadRoots { rest } => rest.len() as int,
        PhaseView::Catalog { archived, pages, .. } => pages_left(archived, pages),
        PhaseView::Descendants { rest, archived, pages, .. } => (rest.len() - 1) * (2 * THREAD_CATALOG_MAX_PAGES)
            + pages_left(archived, pages),
        PhaseView::Resume { rest } => rest.len() as int,
        _ => 0,
    }
}

/// Every reply brings a discovery nearer to its end: to a later phase, or to a place in the same
/// phase from which less may be asked for. So a listing is asked for no more pages than may be.
pub proof fn every_reply_brings_a_discovery_nearer_to_its_end(discovery: DiscoveryView, reply: ReplyView)
    requires
        discovery.wf(),
        !(discovery.phase is Done),
    ensures
        ({
            let next = discovery.step(reply).0;
            ||| rank(next.phase) > rank(discovery.phase)
            ||| rank(next.phase) == rank(discovery.phase) && 0 <= left(next.phase) < left(discovery.phase)
        }),
{
    match discovery.phase {
        PhaseView::Descendants { rest, archived, pages, .. } => {
            let n = rest.len() as int;
            assert((n - 2) * 40 + 40 == (n - 1) * 40) by (nonlinear_arith);
            assert(n >= 1 ==> (n - 1) * 40 >= 0) by (nonlinear_arith);
            assert(n >= 2 ==> (n - 2) * 40 >= 0) by (nonlinear_arith);
        },
        _ => {},
    }
}

fn first_name(names: &Vec<String>) -> (r: String)
    requires
        names@.len() > 0,
    ensures
        r@ == all_chars(names@)[0],
{
    names[0].clone()
}

fn other_names(names: Vec<String>) -> (r: Vec<String>)
    requires
        names@.len() > 0,
    ensures
        all_chars(r@) == all_chars(names@).drop_first(),
{
    let mut rest = names;
    let ghost prior = rest@;
    let _ = rest.remove(0);
    proof {
        assert(all_chars(rest@) =~= all_chars(prior).drop_first());
    }
    rest
}

fn to_resume(found: &Found) -> (r: Phase)
    ensures
        r@ == resume_phase(found@),
{
    let rest = sort_names(&found.active);
    proof {
        assert(rest@.len() == all_chars(rest@).len());
    }
    if rest.len() == 0 {
        Phase::Done
    } else {
        Phase::Resume { rest }
    }
}

fn to_descendants(found: &Found) -> (r: Phase)
    ensures
        r@ == descendants_phase(found@),
{
    proof {
        assert(found.roots@.len() == all_chars(found.roots@).len());
    }
    if found.roots.len() == 0 {
        to_resume(found)
    } else {
        Phase::Descendants { rest: copy_names(&found.roots), archived: false, cursor: None, pages: 0 }
    }
}

fn to_roots(found: &Found) -> (r: Phase)
    ensures
        r@ == roots_phase(found@),
{
    let rest = missing_names(&found.roots, &found.seen);
    proof {
        assert(rest@.len() == all_chars(rest@).len());
    }
    if rest.len() == 0 {
        Phase::Catalog { archived: false, cursor: None, pages: 0 }
    } else {
        Phase::ReadRoots { rest }
    }
}

fn to_next_listing(found: &Found, rest: Vec<String>, archived: bool) -> (r: Phase)
    requires
        rest@.len() > 0,
    ensures
        r@ == next_listing(found@, all_chars(rest@), archived),
{
    proof {
        assert(rest@.len() == all_chars(rest@).len());
    }
    if !archived {
        Phase::Descendants { rest, archived: true, cursor: None, pages: 0 }
    } else if rest.len() <= 1 {
        to_resume(found)
    } else {
        Phase::Descendants { rest: other_names(rest), archived: false, cursor: None, pages: 0 }
    }
}

fn push_thread(threads: &mut Vec<FetchedThread>, thread: &FetchedThread)
    ensures
        fetched(final(threads)@) == fetched(old(threads)@).push(thread@),
{
    let ghost prior = threads@;
    threads.push(thread.clone());
    proof {
        assert(fetched(threads@) =~= fetched(prior).push(thread@));
    }
}

fn no_threads() -> (r: Vec<FetchedThread>)
    ensures
        fetched(r@) == Seq::<FetchedView>::empty(),
{
    let r: Vec<FetchedThread> = Vec::new();
    proof {
        assert(fetched(r@) =~= Seq::<FetchedView>::empty());
    }
    r
}

fn one_thread(thread: FetchedThread) -> (r: Vec<FetchedThread>)
    ensures
        fetched(r@) == seq![thread@],
{
    let r = vec![thread];
    proof {
        assert(fetched(r@) =~= seq![thread@]);
    }
    r
}

/// Takes in the threads of a page of the catalog.
fn scan_catalog(found: &mut Found, workspace: &CodexWatchedWorkspaceRow, threads: &Vec<FetchedThread>) -> (r: Vec<
    FetchedThread,
>)
    ensures
        (ScanView { found: final(found)@, shown: fetched(r@) }) == catalog_scan(
            old(found)@,
            workspace@,
            fetched(threads@),
        ),
{
    let ghost start = found@;
    let ghost all = fetched(threads@);
    let mut shown = no_threads();
    let mut i: usize = 0;
    proof {
        assert(all.take(0) =~= Seq::<FetchedView>::empty());
    }
    while i < threads.len()
        invariant
            i <= threads@.len(),
            all == fetched(threads@),
            (ScanView { found: found@, shown: fetched(shown@) }) == catalog_scan(
                start,
                workspace@,
                all.take(i as int),
            ),
        decreases threads@.len() - i,
    {
        let thread = &threads[i];
        proof {
            assert(all.take(i + 1).drop_last() =~= all.take(i as int));
            assert(all.take(i + 1).last() == thread@);
        }
        if found.finished < RECENT_FINISHED_THREADS_PER_WORKSPACE {
            if let Some(id) = thread.thread.str_at("id") {
                if thread_matches_workspace(thread, workspace) && !thread_is_subagent(&thread.thread) {
                    if add_name(&mut found.seen, id) {
                        let _ = add_name(&mut found.roots, id);
                        push_thread(&mut shown, thread);
                        if thread_is_active(&thread.thread) {
                            push_name(&mut found.active, id);
                        } else {
                            found.finished = found.finished + 1;
                        }
                    }
                }
            }
        }
        i = i + 1;
    }
    proof {
        assert(all.take(i as int) =~= all);
    }
    shown
}

/// Takes in the threads of a page of descendants.
fn scan_descendants(found: &mut Found, workspace: &CodexWatchedWorkspaceRow, threads: &Vec<FetchedThread>) -> (r: Vec<
    FetchedThread,
>)
    ensures
        (ScanView { found: final(found)@, shown: fetched(r@) }) == descendant_scan(
            old(found)@,
            workspace@,
            fetched(threads@),
        ),
{
    let ghost start = found@;
    let ghost all = fetched(threads@);
    let mut shown = no_threads();
    let mut i: usize = 0;
    proof {
        assert(all.take(0) =~= Seq::<FetchedView>::empty());
    }
    while i < threads.len()
        invariant
            i <= threads@.len(),
            all == fetched(threads@),
            (ScanView { found: found@, shown: fetched(shown@) }) == descendant_scan(
                start,
                workspace@,
                all.take(i as int),
            ),
        decreases threads@.len() - i,
    {
        let thread = &threads[i];
        proof {
            assert(all.take(i + 1).drop_last() =~= all.take(i as int));
            assert(all.take(i + 1).last() == thread@);
        }
        if let Some(id) = thread.thread.str_at("id") {
            if add_name(&mut found.seen, id) && thread_matches_workspace(thread, workspace) {
                push_thread(&mut shown, thread);
            }
        }
        i = i + 1;
    }
    proof {
        assert(all.take(i as int) =~= all);
    }
    shown
}

impl Discovery {
    #[verifier::type_invariant]
    spec fn stands_well(self) -> bool {
        (DiscoveryView { workspace: self.workspace@, found: self.found@, phase: self.phase@ }).wf()
    }

    /// Starts the search for the threads of a workspace, whose root is given with links resolved.
    pub fn new(workspace: CodexWatchedWorkspaceRow) -> (r: Discovery)
        ensures
            r@ == DiscoveryView::fresh(workspace@),
            r@.wf(),
    {
        let found = Found { seen: Vec::new(), roots: Vec::new(), active: Vec::new(), finished: 0 };
        proof {
            assert(found@.seen =~= Seq::<Seq<char>>::empty());
            assert(found@.roots =~= Seq::<Seq<char>>::empty());
            assert(found@.active =~= Seq::<Seq<char>>::empty());
        }
        Discovery { workspace, found, phase: Phase::Loaded }
    }

    /// What is asked for next.
    pub fn fetch(&self) -> (r: Fetch)
        ensures
            r@ == self@.fetch(),
            self@.wf(),
    {
        proof {
            use_type_invariant(self);
        }
        match &self.phase {
            Phase::Loaded => Fetch::Loaded,
            Phase::ReadLoaded { rest } => Fetch::Thread { thread_id: first_name(rest) },
            Phase::ReadRoots { rest } => Fetch::Thread { thread_id: first_name(rest) },
            Phase::Catalog { archived, cursor, .. } => Fetch::Page {
                cursor: clone_opt(cursor),
                archived: *archived,
            },
            Phase::Descendants { rest, archived, cursor, .. } => Fetch::Descendants {
                root_thread_id: first_name(rest),
                cursor: clone_opt(cursor),
                archived: *archived,
            },
            Phase::Resume { rest } => Fetch::Resume { thread_id: first_name(rest) },
            Phase::Done => Fetch::Nothing,
        }
    }

    /// Takes in the reply to what was asked for, and gives the threads that are then shown.
    pub fn step(self, reply: Reply) -> (r: (Discovery, Vec<FetchedThread>))
        ensures
            (r.0@, fetched(r.1@)) == self@.step(reply@),
            r.0@.wf(),
    {
        proof {
            use_type_invariant(&self);
            every_step_keeps_a_discovery_well_formed(self@, reply@);
        }
        let Discovery { workspace, found, phase } = self;
        let mut found = found;
        match phase {
            Phase::Loaded => {
                let phase = match reply {
                    Reply::Loaded { thread_ids } => {
                        proof {
                            assert(thread_ids@.len() == all_chars(thread_ids@).len());
                        }
                        if thread_ids.len() > 0 {
                            Phase::ReadLoaded { rest: thread_ids }
                        } else {
                            to_roots(&found)
                        }
                    },
                    _ => to_roots(&found),
                };
                (Discovery { workspace, found, phase }, no_threads())
            },
            Phase::ReadLoaded { rest } => {
                let shown = match reply {
                    Reply::Thread { thread } => if thread_matches_workspace(&thread, &workspace) {
                        one_thread(thread)
                    } else {
                        no_threads()
                    },
                    _ => no_threads(),
                };
                let id = first_name(&rest);
                proof {
                    assert(shown@.len() == fetched(shown@).len());
                    assert(rest@.len() == all_chars(rest@).len());
                }
                if shown.len() > 0 {
                    proof {
                        assert(fetched(shown@)[0] == shown@[0]@);
                    }
                    let thread = &shown[0].thread;
                    match thread_parent_id(thread) {
                        Some(parent) => {
                            let _ = add_name(&mut found.roots, parent);
                        },
                        None => {
                            let _ = add_name(&mut found.roots, id.as_str());
                        },
                    }
                    let _ = add_name(&mut found.seen, id.as_str());
                    if thread_is_active(thread) {
                        push_name(&mut found.active, id.as_str());
                    }
                }
                let phase = if rest.len() <= 1 {
                    to_roots(&found)
                } else {
                    Phase::ReadLoaded { rest: other_names(rest) }
                };
                (Discovery { workspace, found, phase }, shown)
            },
            Phase::ReadRoots { rest } => {
                let shown = match reply {
                    Reply::Thread { thread } => if thread_matches_workspace(&thread, &workspace) {
                        one_thread(thread)
                    } else {
                        no_threads()
                    },
                    _ => no_threads(),
                };
                let id = first_name(&rest);
                proof {
                    assert(shown@.len() == fetched(shown@).len());
                    assert(rest@.len() == all_chars(rest@).len());
                }
                if shown.len() > 0 {
                    let _ = add_name(&mut found.seen, id.as_str());
                }
                let phase = if rest.len() <= 1 {
                    Phase::Catalog { archived: false, cursor: None, pages: 0 }
                } else {
                    Phase::ReadRoots { rest: other_names(rest) }
                };
                (Discovery { workspace, found, phase }, shown)
            },
            Phase::Catalog { archived, pages, .. } => match reply {
                Reply::Page { page } => {
                    let shown = scan_catalog(&mut found, &workspace, &page.threads);
                    let phase = if found.finished >= RECENT_FINISHED_THREADS_PER_WORKSPACE {
                        to_descendants(&found)
                    } else if page.next_cursor.is_some() && pages + 1 < THREAD_CATALOG_MAX_PAGES {
                        Phase::Catalog { archived, cursor: page.next_cursor, pages: pages + 1 }
                    } else if !archived {
                        Phase::Catalog { archived: true, cursor: None, pages: 0 }
                    } else {
                        to_descendants(&found)
                    };
                    (Discovery { workspace, found, phase }, shown)
                },
                _ => {
                    let phase = to_descendants(&found);
                    (Discovery { workspace, found, phase }, no_threads())
                },
            },
            Phase::Descendants { rest, archived, pages, .. } => {
                proof {
                    assert(rest@.len() == all_chars(rest@).len());
                }
                match reply {
                    Reply::Page { page } => {
                        let shown = scan_descendants(&mut found, &workspace, &page.threads);
                        let phase = if page.next_cursor.is_some() && pages + 1 < THREAD_CATALOG_MAX_PAGES {
                            Phase::Descendants { rest, archived, cursor: page.next_cursor, pages: pages + 1 }
                        } else {
                            to_next_listing(&found, rest, archived)
                        };
                        (Discovery { workspace, found, phase }, shown)
                    },
                    _ => {
                        let phase = to_next_listing(&found, rest, archived);
                        (Discovery { workspace, found, phase }, no_threads())
                    },
                }
            },
            Phase::Resume { rest } => {
                proof {
                    assert(rest@.len() == all_chars(rest@).len());
                }
                let shown = match reply {
                    Reply::Thread { thread } => one_thread(thread),
                    _ => no_threads(),
                };
                let phase = if rest.len() <= 1 {
                    Phase::Done
                } else {
                    Phase::Resume { rest: other_names(rest) }
                };
                (Discovery { workspace, found, phase }, shown)
            },
            Phase::Done => (Discovery { workspace, found, phase: Phase::Done }, no_threads()),
        }
    }
}

} // verus!
