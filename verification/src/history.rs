//! The items that a thread already holds when a conversation first shows it, and the pages of
//! older ones.
use vstd::prelude::*;

use crate::items::{or_empty, unwrap_or_empty};
use crate::json::{i64_in, trees, Json, Tree};
use crate::protocol::{CodexAppServerError, ErrorView};
use crate::rows::{BindingView, CodexThreadBindingRow};
use crate::text::{equals, opt_string};
use crate::thread::{i64_at, is_in_range, millis, seconds_fit, to_millis};

verus! {

/// The error code of a method that the app-server does not know.
pub const METHOD_NOT_FOUND: i64 = -32_601;

/// One step through a thread's history.
#[derive(Debug, PartialEq)]
pub enum HistoryStep {
    /// The turn is still running.
    Turn { turn_id: String },
    /// The item is shown as one that is complete, and nobody is told.
    Item { turn_id: String, item: Json, created_at: i64 },
}

pub enum StepView {
    Turn { turn_id: Seq<char> },
    Item { turn_id: Seq<char>, item: Tree, created_at: i64 },
}

impl View for HistoryStep {
    type V = StepView;

    open spec fn view(&self) -> StepView {
        match self {
            HistoryStep::Turn { turn_id } => StepView::Turn { turn_id: turn_id@ },
            HistoryStep::Item { turn_id, item, created_at } => StepView::Item {
                turn_id: turn_id@,
                item: item@,
                created_at: *created_at,
            },
        }
    }
}

pub open spec fn steps(list: Seq<HistoryStep>) -> Seq<StepView> {
    list.map_values(|step: HistoryStep| step@)
}

proof fn lemma_steps_push(list: Seq<HistoryStep>, step: HistoryStep)
    ensures
        steps(list.push(step)) == steps(list).push(step@),
{
    assert(steps(list.push(step)) =~= steps(list).push(step@));
}

/// The items of a list, or none where it is no list.
pub open spec fn items_in(tree: Option<Tree>) -> Seq<Tree> {
    match tree {
        Some(Tree::Array(items)) => items,
        _ => Seq::empty(),
    }
}

/// When a turn started, in milliseconds.
pub open spec fn turn_start(turn: Tree, now: i64) -> i64 {
    millis(i64_in(turn.get("startedAt"@)), now)
}

/// The items of a turn, one millisecond apart.
pub open spec fn item_steps(turn_id: Seq<char>, items: Seq<Tree>, start: i64) -> Seq<StepView> {
    Seq::new(
        items.len(),
        |i: int| StepView::Item { turn_id, item: items[i], created_at: (start + i) as i64 },
    )
}

/// The steps through one turn.
pub open spec fn turn_steps(turn: Tree, now: i64) -> Seq<StepView> {
    let turn_id = or_empty(turn.str_at("id"@));
    let running = if turn.str_at("status"@) == Some("inProgress"@) {
        seq![StepView::Turn { turn_id }]
    } else {
        Seq::empty()
    };
    running + item_steps(turn_id, items_in(turn.get("items"@)), turn_start(turn, now))
}

/// The steps through the first turns of a list.
pub open spec fn turns_steps(turns: Seq<Tree>, now: i64) -> Seq<StepView>
    decreases turns.len(),
{
    if turns.len() == 0 {
        Seq::empty()
    } else {
        turns_steps(turns.drop_last(), now) + turn_steps(turns.last(), now)
    }
}

/// The times of a turn and of its items can be given in milliseconds.
pub open spec fn turn_fits(turn: Tree, now: i64) -> bool {
    let items = items_in(turn.get("items"@));
    &&& seconds_fit(i64_in(turn.get("startedAt"@)))
    &&& items.len() <= i64::MAX
    &&& turn_start(turn, now) + items.len() - 1 <= i64::MAX
}

/// The times of a thread's turns can be given in milliseconds.
pub open spec fn history_fits(thread: Tree, now: i64) -> bool {
    let turns = items_in(thread.get("turns"@));
    forall|i: int| 0 <= i < turns.len() ==> turn_fits(#[trigger] turns[i], now)
}

fn array_at<'a>(json: &'a Json, key: &str) -> (r: Option<&'a Vec<Json>>)
    ensures
        match r {
            Some(items) => items_in(json@.get(key@)) == trees(items@),
            None => items_in(json@.get(key@)) == Seq::<Tree>::empty(),
        },
{
    match json.get(key) {
        Some(member) => member.as_array(),
        None => None,
    }
}

fn does_turn_fit(turn: &Json, now: i64) -> (r: bool)
    ensures
        r == turn_fits(turn@, now),
{
    let started = i64_at(turn, "startedAt");
    if !is_in_range(started) {
        return false;
    }
    let start: i64 = to_millis(started, now);
    let count: usize = match array_at(turn, "items") {
        Some(items) => items.len(),
        None => 0,
    };
    count as i128 <= i64::MAX as i128 && start as i128 + count as i128 - 1 <= i64::MAX as i128
}

/// Whether the times of a thread's turns can be given in milliseconds.
pub fn thread_history_fits(thread: &Json, now: i64) -> (r: bool)
    ensures
        r == history_fits(thread@, now),
{
    let turns = match array_at(thread, "turns") {
        Some(turns) => turns,
        None => return true,
    };
    let ghost all = items_in(thread@.get("turns"@));
    let mut i: usize = 0;
    while i < turns.len()
        invariant
            i <= turns@.len(),
            all == trees(turns@),
            all == items_in(thread@.get("turns"@)),
            forall|j: int| 0 <= j < i ==> turn_fits(#[trigger] all[j], now),
        decreases turns@.len() - i,
    {
        if !does_turn_fit(&turns[i], now) {
            proof {
                assert(!turn_fits(all[i as int], now));
            }
            return false;
        }
        i = i + 1;
    }
    true
}

fn push_turn(list: &mut Vec<HistoryStep>, turn: &Json, now: i64)
    requires
        turn_fits(turn@, now),
    ensures
        steps(final(list)@) == steps(old(list)@) + turn_steps(turn@, now),
{
    let turn_id = unwrap_or_empty(turn.str_at("id"));
    let start: i64 = to_millis(i64_at(turn, "startedAt"), now);
    let ghost before = steps(list@);
    let ghost items = items_in(turn@.get("items"@));
    let ghost shown = item_steps(turn_id@, items, start);
    if equals(turn.str_at("status"), "inProgress") {
        let step = HistoryStep::Turn { turn_id: turn_id.to_owned() };
        proof {
            lemma_steps_push(list@, step);
        }
        list.push(step);
    }
    let ghost marked = steps(list@);
    proof {
        assert(before + turn_steps(turn@, now) =~= marked + shown);
    }
    if let Some(all) = array_at(turn, "items") {
        let mut i: usize = 0;
        proof {
            assert(marked + shown.take(0) =~= marked);
        }
        while i < all.len()
            invariant
                i <= all@.len(),
                items == trees(all@),
                items.len() <= i64::MAX,
                start + items.len() - 1 <= i64::MAX,
                shown == item_steps(turn_id@, items, start),
                steps(list@) == marked + shown.take(i as int),
            decreases all@.len() - i,
        {
            let created_at: i64 = start + i as i64;
            let step = HistoryStep::Item { turn_id: turn_id.to_owned(), item: all[i].clone(), created_at };
            proof {
                lemma_steps_push(list@, step);
                assert(step@ == shown[i as int]);
                assert(marked + shown.take(i + 1) =~= (marked + shown.take(i as int)).push(shown[i as int]));
            }
            list.push(step);
            i = i + 1;
        }
        proof {
            assert(shown.take(i as int) =~= shown);
        }
    } else {
        proof {
            assert(shown =~= Seq::<StepView>::empty());
            assert(marked + shown =~= marked);
        }
    }
}

/// The steps through the turns that a thread holds.
pub fn project_thread_history(thread: &Json, now: i64) -> (r: Vec<HistoryStep>)
    requires
        history_fits(thread@, now),
    ensures
        steps(r@) == turns_steps(items_in(thread@.get("turns"@)), now),
{
    let mut list: Vec<HistoryStep> = Vec::new();
    let ghost all = items_in(thread@.get("turns"@));
    proof {
        assert(steps(list@) =~= Seq::<StepView>::empty());
    }
    if let Some(turns) = array_at(thread, "turns") {
        let mut i: usize = 0;
        proof {
            assert(turns_steps(all.take(0), now) =~= Seq::<StepView>::empty());
        }
        while i < turns.len()
            invariant
                i <= turns@.len(),
                all == trees(turns@),
                all == items_in(thread@.get("turns"@)),
                history_fits(thread@, now),
                steps(list@) == turns_steps(all.take(i as int), now),
            decreases turns@.len() - i,
        {
            proof {
                assert(all.take(i + 1).drop_last() =~= all.take(i as int));
                assert(all.take(i + 1).last() == turns@[i as int]@);
                assert(turn_fits(all[i as int], now));
            }
            push_turn(&mut list, &turns[i], now);
            i = i + 1;
        }
        proof {
            assert(all.take(i as int) =~= all);
        }
    }
    list
}

/// A page of a thread's history, the newest entry first.
#[derive(Debug, PartialEq)]
pub struct HistoryPage {
    pub entries: Vec<Json>,
    pub next_cursor: Option<String>,
}

/// How far a thread's history has been read.
#[derive(Debug, PartialEq, Eq)]
pub struct HistoryState {
    pub cursor: Option<String>,
    pub complete: bool,
    pub next_created_at: i64,
}

/// The app-server lists no items of a thread, so that the summaries of its turns are to be read.
pub open spec fn lists_no_items(error: ErrorView) -> bool {
    error matches ErrorView::Rpc { code, .. } && code == METHOD_NOT_FOUND
}

/// Whether the app-server lists no items of a thread.
pub fn needs_turn_summaries(error: &CodexAppServerError) -> (r: bool)
    ensures
        r == lists_no_items(error@),
{
    match error {
        CodexAppServerError::Rpc { code, .. } => *code == METHOD_NOT_FOUND,
        _ => false,
    }
}

/// The time of the newest entry of a page: a page that goes on from another is older than it.
pub open spec fn page_start(binding: BindingView, first: bool, now: i64) -> i64 {
    match binding.history_next_created_at {
        Some(time) => if first {
            now
        } else {
            time
        },
        None => now,
    }
}

/// The time of the newest entry of the page that a cursor leads to.
pub fn history_start(binding: &CodexThreadBindingRow, cursor: Option<&str>, now: i64) -> (r: i64)
    ensures
        r == page_start(binding@, cursor is None, now),
{
    match binding.history_next_created_at {
        Some(time) => if cursor.is_none() {
            now
        } else {
            time
        },
        None => now,
    }
}

/// The steps through the first entries of a page, each a millisecond older than the one before.
/// An entry without an item is none.
pub open spec fn page_steps(entries: Seq<Tree>, start: i64) -> Seq<StepView>
    decreases entries.len(),
{
    if entries.len() == 0 {
        Seq::empty()
    } else {
        let entry = entries.last();
        let before = page_steps(entries.drop_last(), start);
        match entry.get("item"@) {
            Some(item) => before.push(
                StepView::Item {
                    turn_id: or_empty(entry.str_at("turnId"@)),
                    item,
                    created_at: (start - (entries.len() - 1)) as i64,
                },
            ),
            None => before,
        }
    }
}

/// The times of a page's entries are times.
pub open spec fn page_fits(count: nat, start: i64) -> bool {
    count <= i64::MAX && i64::MIN <= start - count
}

/// Whether the times of a page's entries are times.
pub fn history_page_fits(page: &HistoryPage, start: i64) -> (r: bool)
    ensures
        r == page_fits(page.entries@.len(), start),
{
    let count: usize = page.entries.len();
    count as i128 <= i64::MAX as i128 && i64::MIN as i128 <= start as i128 - count as i128
}

/// The steps through a page of a thread's history, and how far the history has then been read. It
/// is complete with a page that no other follows.
pub fn sync_history_page(page: &HistoryPage, start: i64) -> (r: (Vec<HistoryStep>, HistoryState))
    requires
        page_fits(page.entries@.len(), start),
    ensures
        steps(r.0@) == page_steps(trees(page.entries@), start),
        opt_string(r.1.cursor) == opt_string(page.next_cursor),
        r.1.complete == (page.next_cursor is None),
        r.1.next_created_at == start - page.entries@.len(),
{
    let mut list: Vec<HistoryStep> = Vec::new();
    let ghost all = trees(page.entries@);
    let mut i: usize = 0;
    proof {
        assert(steps(list@) =~= page_steps(all.take(0), start));
    }
    while i < page.entries.len()
        invariant
            i <= page.entries@.len(),
            all == trees(page.entries@),
            page_fits(page.entries@.len(), start),
            steps(list@) == page_steps(all.take(i as int), start),
        decreases page.entries@.len() - i,
    {
        proof {
            assert(all.take(i + 1).drop_last() =~= all.take(i as int));
            assert(all.take(i + 1).last() == page.entries@[i as int]@);
        }
        let entry = &page.entries[i];
        if let Some(item) = entry.get("item") {
            let step = HistoryStep::Item {
                turn_id: unwrap_or_empty(entry.str_at("turnId")).to_owned(),
                item: item.clone(),
                created_at: start - i as i64,
            };
            proof {
                lemma_steps_push(list@, step);
            }
            list.push(step);
        }
        i = i + 1;
    }
    proof {
        assert(all.take(i as int) =~= all);
    }
    let state = HistoryState {
        cursor: crate::text::clone_opt(&page.next_cursor),
        complete: page.next_cursor.is_none(),
        next_created_at: start - page.entries.len() as i64,
    };
    (list, state)
}

/// Each step through a page is of an earlier time than the one before, and all of them are later
/// than the time that the next page starts with.
pub proof fn a_page_goes_back_in_time(entries: Seq<Tree>, start: i64)
    requires
        page_fits(entries.len(), start),
    ensures
        ({
            let list = page_steps(entries, start);
            &&& forall|i: int|
                0 <= i < list.len() ==> (#[trigger] list[i] matches StepView::Item { created_at, .. } && start
                    - entries.len() < created_at <= start)
            &&& forall|i: int, j: int|
                0 <= i < j < list.len() ==> (#[trigger] list[i])->created_at > (#[trigger] list[j])->created_at
        }),
    decreases entries.len(),
{
    if entries.len() > 0 {
        let front = entries.drop_last();
        a_page_goes_back_in_time(front, start);
        let before = page_steps(front, start);
        let list = page_steps(entries, start);
        assert forall|i: int| 0 <= i < list.len() implies (#[trigger] list[i] matches StepView::Item {
            created_at,
            ..
        } && start - entries.len() < created_at <= start) by {
            if i < before.len() {
                assert(list[i] == before[i]);
            }
        }
        assert forall|i: int, j: int| 0 <= i < j < list.len() implies (#[trigger] list[i])->created_at > (
        #[trigger] list[j])->created_at by {
            assert(list[i] == before[i]);
            if j < before.len() {
                assert(list[j] == before[j]);
            }
        }
    }
}

/// A turn is shown with every item that it has, in their order, each in the turn and a millisecond after
/// the one before. The first is of the time that the turn started at, which is given in seconds, or of
/// now where it says none. A turn that is in progress is shown as running before that, and no other is.
pub proof fn a_turn_is_shown_with_all_its_items(turn: Tree, id: Seq<char>, items: Seq<Tree>, seconds: i64, now: i64)
    requires
        turn_fits(turn, now),
        turn.get("id"@) == Some(Tree::Str(id)),
        turn.get("items"@) == Some(Tree::Array(items)),
    ensures
        ({
            let list = turn_steps(turn, now);
            let running = turn.get("status"@) == Some(Tree::Str("inProgress"@));
            let offset: int = if running {
                1
            } else {
                0
            };
            &&& list.len() == items.len() + offset
            &&& running ==> list[0] == (StepView::Turn { turn_id: id })
            &&& forall|i: int|
                0 <= i < items.len() ==> {
                    &&& list[i + offset] matches StepView::Item { turn_id, item, created_at }
                    &&& turn_id == id
                    &&& item == #[trigger] items[i]
                    &&& turn.get("startedAt"@) == Some(Tree::Int(seconds)) ==> created_at == seconds * 1000 + i
                    &&& turn.get("startedAt"@) is None ==> created_at == now + i
                }
        }),
{
    let list = turn_steps(turn, now);
    let running = turn.get("status"@) == Some(Tree::Str("inProgress"@));
    let offset: int = if running {
        1
    } else {
        0
    };
    let shown = item_steps(id, items, turn_start(turn, now));
    assert(list.len() == items.len() + offset);
    assert forall|i: int| 0 <= i < items.len() implies {
        &&& list[i + offset] matches StepView::Item { turn_id, item, created_at }
        &&& turn_id == id
        &&& item == #[trigger] items[i]
        &&& turn.get("startedAt"@) == Some(Tree::Int(seconds)) ==> created_at == seconds * 1000 + i
        &&& turn.get("startedAt"@) is None ==> created_at == now + i
    } by {
        assert(list[i + offset] == shown[i]);
    }
}

/// The history of a thread is that of its turns, one after the other.
pub proof fn turns_are_shown_one_after_the_other(turns: Seq<Tree>, more: Tree, now: i64)
    ensures
        turns_steps(Seq::<Tree>::empty(), now).len() == 0,
        turns_steps(turns.push(more), now) == turns_steps(turns, now) + turn_steps(more, now),
{
    assert(turns.push(more).drop_last() =~= turns);
    assert(turns.push(more).last() == more);
}

/// A page shows the item of every entry that has one, in the turn that the entry names, at a time that is
/// as many milliseconds before that of the newest as the entry has before it; and it shows nothing else.
pub proof fn a_page_shows_the_item_of_every_entry(entries: Seq<Tree>, start: i64, i: int, item: Tree, turn_id: Seq<char>)
    requires
        page_fits(entries.len(), start),
        0 <= i < entries.len(),
    ensures
        entries[i].get("item"@) == Some(item) && entries[i].get("turnId"@) == Some(Tree::Str(turn_id)) ==> page_steps(
            entries,
            start,
        ).contains(StepView::Item { turn_id, item, created_at: (start - i) as i64 }),
        forall|k: int|
            0 <= k < page_steps(entries, start).len() ==> {
                &&& #[trigger] page_steps(entries, start)[k] matches StepView::Item { item: shown, created_at, .. }
                &&& 0 <= start - created_at < entries.len()
                &&& entries[start - created_at].get("item"@) == Some(shown)
            },
    decreases entries.len(),
{
    let front = entries.drop_last();
    let list = page_steps(entries, start);
    let before = page_steps(front, start);
    if i < front.len() {
        a_page_shows_the_item_of_every_entry(front, start, i, item, turn_id);
        let step = StepView::Item { turn_id, item, created_at: (start - i) as i64 };
        if before.contains(step) {
            let k = choose|k: int| 0 <= k < before.len() && before[k] == step;
            assert(list[k] == step);
        }
    } else {
        if front.len() > 0 {
            a_page_shows_the_item_of_every_entry(front, start, 0, item, turn_id);
        }
        if entries[i].get("item"@) == Some(item) {
            assert(list[before.len() as int]->item == item);
        }
    }
    assert forall|k: int| 0 <= k < list.len() implies {
        &&& #[trigger] list[k] matches StepView::Item { item: shown, created_at, .. }
        &&& 0 <= start - created_at < entries.len()
        &&& entries[start - created_at].get("item"@) == Some(shown)
    } by {
        if k < before.len() {
            assert(list[k] == before[k]);
        }
    }
}

/// A page starts at the time where the last one stopped, unless it is the first, or no other was read: it
/// then starts now. Only an app-server that does not know the method lists no items.
pub proof fn a_page_starts_where_the_last_one_stopped(binding: BindingView, time: i64, now: i64, code: i64, data: Option<Tree>, message: Seq<char>)
    ensures
        page_start(binding, true, now) == now,
        binding.history_next_created_at == Some(time) ==> page_start(binding, false, now) == time,
        binding.history_next_created_at is None ==> page_start(binding, false, now) == now,
        lists_no_items(ErrorView::Rpc { code, message, data }) <==> code == -32601,
        !lists_no_items(ErrorView::Timeout),
        !lists_no_items(ErrorView::ActiveTurnNotSteerable),
        !lists_no_items(ErrorView::Unavailable(message)),
        !lists_no_items(ErrorView::InvalidResponse(message)),
{
}

} // verus!
