//! What is promised of workspaces, tabs, panes and their places.

use vstd::prelude::*;

use crate::agent::store::AgentState;
use crate::layout::model::{
    all_panes_in, by_urgency, following, lemma_urgency_orders, panes_in, preceding, tab_panes_in, total, PaneId,
    PaneModel, TabModel, Unread, WorkspaceModel, WorkspacesModel,
};
use crate::layout::persist::{captured, captured_tabs, restored_pane, saved_panes, LayoutModel, VERSION};
use crate::layout::tiling::{
    after, beside, border_distance, differ, grabbable, in_steps, largest, lies, nearest, place_of, rect_of,
    settled_share, splits_closed_up, travel, Dir, Rect, TilingModel, TilingSnapshotModel, HALF, LEAST_SHARE,
    MOST_SHARE,
};
use crate::seqs::{first_where, law_sorting_orders, lemma_first_where};
use crate::text::{decimal, text_less};

verus! {

// -------------------------------------------------------------------------- counts

/// What is unread is told by the larger of the two counts, with the sign of a mention where there
/// is one; nothing is told where nothing is unread.
pub proof fn law_what_is_unread_is_told(u: Unread)
    ensures
        u.badge() is None <==> u.notifications == 0 && u.highlights == 0,
        u.highlights > 0 && u.highlights >= u.notifications ==> u.badge() == Some(
            "(@"@ + decimal(u.highlights as nat) + ")"@,
        ),
        u.highlights > 0 && u.highlights < u.notifications ==> u.badge() == Some(
            "(@"@ + decimal(u.notifications as nat) + ")"@,
        ),
        u.highlights == 0 && u.notifications > 0 ==> u.badge() == Some("("@ + decimal(u.notifications as nat) + ")"@),
{
}

/// Counts add up, each kind with its own, as far as they can be held.
pub proof fn law_counts_add_up(a: Unread, b: Unread)
    ensures
        a.notifications + b.notifications <= u64::MAX ==> a.spec_plus(b).notifications == a.notifications
            + b.notifications,
        a.notifications + b.notifications > u64::MAX ==> a.spec_plus(b).notifications == u64::MAX,
        a.highlights + b.highlights <= u64::MAX ==> a.spec_plus(b).highlights == a.highlights + b.highlights,
        a.highlights + b.highlights > u64::MAX ==> a.spec_plus(b).highlights == u64::MAX,
{
}

/// The total of one more is the total and that one.
pub proof fn law_totals_take_in_each(counts: Seq<Unread>, last: Unread)
    ensures
        total(counts.push(last)) == total(counts).spec_plus(last),
        total(Seq::<Unread>::empty()).notifications == 0,
        total(Seq::<Unread>::empty()).highlights == 0,
{
    assert(counts.push(last).drop_last() =~= counts);
}

/// A workspace has what its tabs have unread, and the bar what its workspaces have.
pub proof fn law_unread_counts_roll_up(w: WorkspaceModel, tab: TabModel, bar: WorkspacesModel)
    ensures
        (WorkspaceModel { tabs: w.tabs.push(tab), ..w }).unread() == w.unread().spec_plus(tab.unread),
        (WorkspacesModel { items: bar.items.push(w), ..bar }).unread() == bar.unread().spec_plus(w.unread()),
{
    let counts = w.tabs.map_values(|t: TabModel| t.unread);
    assert(w.tabs.push(tab).map_values(|t: TabModel| t.unread) =~= counts.push(tab.unread));
    law_totals_take_in_each(counts, tab.unread);
    let all = bar.items.map_values(|w: WorkspaceModel| w.unread());
    assert(bar.items.push(w).map_values(|w: WorkspaceModel| w.unread()) =~= all.push(w.unread()));
    law_totals_take_in_each(all, w.unread());
}

/// Each pane in a state is counted once, wherever it is.
pub proof fn law_each_pane_is_counted_once(
    panes: Seq<PaneModel>,
    pane: PaneModel,
    tabs: Seq<TabModel>,
    tab: TabModel,
    items: Seq<WorkspaceModel>,
    w: WorkspaceModel,
    state: AgentState,
)
    ensures
        panes_in(Seq::empty(), state) == 0,
        pane.state == state ==> panes_in(panes.push(pane), state) == panes_in(panes, state) + 1,
        pane.state != state ==> panes_in(panes.push(pane), state) == panes_in(panes, state),
        tab_panes_in(Seq::empty(), state) == 0,
        tab_panes_in(tabs.push(tab), state) == tab_panes_in(tabs, state) + panes_in(tab.panes, state),
        all_panes_in(Seq::empty(), state) == 0,
        all_panes_in(items.push(w), state) == all_panes_in(items, state) + tab_panes_in(w.tabs, state),
{
    assert(panes.push(pane).drop_last() =~= panes);
    assert(tabs.push(tab).drop_last() =~= tabs);
    assert(items.push(w).drop_last() =~= items);
}

// -------------------------------------------------------------------------- panes and tabs

/// A header begins with the sign of the pane's state and ends with its title; between them it
/// warns of messages that are missing, then of ones that came without their structure.
pub proof fn law_a_header_tells_of_its_pane(p: PaneModel)
    ensures
        !p.gaps && !p.degraded ==> p.header() =~= p.state.spec_glyph() + " "@ + p.title,
        p.gaps && !p.degraded ==> p.header() =~= p.state.spec_glyph() + " !"@ + p.title,
        !p.gaps && p.degraded ==> p.header() =~= p.state.spec_glyph() + " ~"@ + p.title,
        p.gaps && p.degraded ==> p.header() =~= p.state.spec_glyph() + " !~"@ + p.title,
{
    reveal_strlit("");
    reveal_strlit(" ");
    reveal_strlit("!");
    reveal_strlit("~");
    reveal_strlit(" !");
    reveal_strlit(" ~");
    reveal_strlit(" !~");
}

/// A pane that is focused by its name has the focus; one that is not there changes nothing.
pub proof fn law_a_pane_is_focused_by_name(tab: TabModel, id: PaneId, i: int)
    requires
        tab.panes.len() <= usize::MAX,
    ensures
        0 <= i < tab.panes.len() && tab.panes[i].id == id ==> tab.focus(id).focused < tab.panes.len()
            && tab.panes[tab.focus(id).focused as int].id == id,
        (forall|j: int| 0 <= j < tab.panes.len() ==> (#[trigger] tab.panes[j]).id != id) ==> tab.focus(id) == tab,
        tab.focus(id).panes == tab.panes,
        tab.focus(id).room_id == tab.room_id,
{
    let test = crate::layout::model::with_id(id);
    lemma_first_where(tab.panes, test);
    if 0 <= i < tab.panes.len() && tab.panes[i].id == id {
        assert(test(tab.panes[i]));
    }
}

/// A removed pane is gone, and every other stays; where it had the focus, the pane behind it has
/// it now, or the last where there is none.
pub proof fn law_a_removed_pane_is_gone(tab: TabModel, i: int)
    requires
        0 <= i < tab.panes.len() <= usize::MAX,
        forall|j: int| 0 <= j < i ==> (#[trigger] tab.panes[j]).id != tab.panes[i].id,
        tab.focused < tab.panes.len(),
    ensures
        ({
            let after = tab.remove_pane(tab.panes[i].id);
            &&& after.panes == tab.panes.take(i) + tab.panes.skip(i + 1)
            &&& tab.focused == i && i + 1 < tab.panes.len() ==> after.focused == i
            &&& tab.focused == i && i + 1 == tab.panes.len() && i > 0 ==> after.focused == i - 1
            &&& tab.focused > i ==> after.focused == tab.focused - 1
            &&& tab.focused < i ==> after.focused == tab.focused
        }),
{
    let test = crate::layout::model::with_id(tab.panes[i].id);
    lemma_first_where(tab.panes, test);
    assert(test(tab.panes[i]));
    let k = first_where(tab.panes, test)->0;
    if k < i {
        assert(test(tab.panes[k]));
    }
    if i < k {
        assert(!test(tab.panes[i]));
    }
    assert(tab.panes.remove(i) =~= tab.panes.take(i) + tab.panes.skip(i + 1));
}

/// The pane of a thread is one that shows it; there is none only where none does.
pub proof fn law_a_thread_is_found_in_its_pane(tab: TabModel, root: Seq<char>)
    ensures
        tab.pane_for_thread(root) is Some ==> tab.panes.contains(tab.pane_for_thread(root)->0)
            && tab.pane_for_thread(root)->0.kind is Thread && tab.pane_for_thread(root)->0.kind->Thread_root == root,
        tab.pane_for_thread(root) is None ==> forall|i: int|
            0 <= i < tab.panes.len() ==> !((#[trigger] tab.panes[i]).kind is Thread && tab.panes[i].kind->Thread_root
                == root),
{
    let test = crate::layout::model::on_thread(root);
    lemma_first_where(tab.panes, test);
    if tab.pane_for_thread(root) is None {
        assert forall|i: int| 0 <= i < tab.panes.len() implies !((#[trigger] tab.panes[i]).kind is Thread
            && tab.panes[i].kind->Thread_root == root) by {
            assert(!test(tab.panes[i]));
        }
    }
}

/// The next of several is the one behind, and behind the last the first; the one before is the
/// one in front, and in front of the first the last.
pub proof fn law_cycling_goes_one_on(index: usize, len: nat)
    requires
        index < len <= usize::MAX,
    ensures
        index + 1 < len ==> following(index, len) == index + 1,
        index + 1 == len ==> following(index, len) == 0,
        index > 0 ==> preceding(index, len) == index - 1,
        index == 0 ==> preceding(index, len) == len - 1,
{
    if index + 1 < len {
        assert((index + 1) % (len as int) == index + 1) by (nonlinear_arith)
            requires
                index + 1 < len,
                index >= 0,
        ;
    }
    if index > 0 {
        assert((index + len - 1) % (len as int) == index - 1) by (nonlinear_arith)
            requires
                0 < index < len,
        ;
    } else {
        assert((len - 1) % (len as int) == len - 1) by (nonlinear_arith)
            requires
                0 < len,
        ;
    }
}

/// A workspace is entered under its name: the one that has it, or a new and empty one at the end.
pub proof fn law_a_workspace_is_entered_once(bar: WorkspacesModel, id: Seq<char>, title: Seq<char>)
    ensures
        ({
            let after = bar.with_entry(id, title);
            let at = bar.entry_index(id);
            &&& 0 <= at < after.items.len()
            &&& after.items[at].id == id
            &&& forall|i: int| 0 <= i < bar.items.len() ==> after.items[i] == #[trigger] bar.items[i]
            &&& (forall|i: int| 0 <= i < bar.items.len() ==> (#[trigger] bar.items[i]).id != id) ==> at
                == bar.items.len() && after.items.len() == bar.items.len() + 1 && after.items[at].title == title
                && after.items[at].tabs.len() == 0
            &&& (exists|i: int| 0 <= i < bar.items.len() && (#[trigger] bar.items[i]).id == id) ==> after == bar
            &&& after.focused == bar.focused
        }),
{
    let test = crate::layout::model::of_space(id);
    lemma_first_where(bar.items, test);
    if exists|i: int| 0 <= i < bar.items.len() && (#[trigger] bar.items[i]).id == id {
        let i = choose|i: int| 0 <= i < bar.items.len() && (#[trigger] bar.items[i]).id == id;
        assert(test(bar.items[i]));
    }
    if first_where(bar.items, test) is Some {
        assert(test(bar.items[first_where(bar.items, test)->0]));
    }
}

/// A room is found where it is: in a tab for it, and nowhere only where no workspace has one.
pub proof fn law_a_room_is_found_where_it_is(bar: WorkspacesModel, room_id: Seq<char>)
    ensures
        bar.locate_room(room_id) is Some ==> {
            let (w, t) = bar.locate_room(room_id)->0;
            0 <= w < bar.items.len() && 0 <= t < bar.items[w].tabs.len() && bar.items[w].tabs[t].room_id == room_id
        },
        bar.locate_room(room_id) is None ==> forall|w: int,
 t: int|
            0 <= w < bar.items.len() && 0 <= t < bar.items[w].tabs.len() ==> (
            #[trigger] bar.items[w].tabs[t]).room_id != room_id,
{
    let outer = crate::layout::model::holds_room(room_id);
    let inner = crate::layout::model::for_room(room_id);
    lemma_first_where(bar.items, outer);
    match first_where(bar.items, outer) {
        Some(w) => {
            lemma_first_where(bar.items[w].tabs, inner);
            assert(outer(bar.items[w]));
        },
        None => {
            assert forall|w: int, t: int| 0 <= w < bar.items.len() && 0 <= t < bar.items[w].tabs.len() implies (
            #[trigger] bar.items[w].tabs[t]).room_id != room_id by {
                assert(!outer(bar.items[w]));
                lemma_first_where(bar.items[w].tabs, inner);
                assert(!inner(bar.items[w].tabs[t]));
            }
        },
    }
}

/// Put in order, the workspaces that call more loudly come first, and among equals the titles go
/// by the alphabet; none is lost or added.
pub proof fn law_the_most_urgent_come_first(bar: WorkspacesModel, i: int, j: int)
    requires
        0 <= i < j < bar.items.len(),
    ensures
        ({
            let items = bar.sort_by_urgency().items;
            &&& items.to_multiset() == bar.items.to_multiset()
            &&& items.len() == bar.items.len()
            &&& items[i].state().rank() >= items[j].state().rank()
            &&& items[i].state().rank() == items[j].state().rank() ==> !text_less(items[j].title, items[i].title)
        }),
{
    lemma_urgency_orders();
    law_sorting_orders(bar.items, by_urgency());
    let items = bar.sort_by_urgency().items;
    assert(!by_urgency()(items[j], items[i]));
}

// -------------------------------------------------------------------------- rectangles

/// A rectangle holds the cells from its corner on, as many as it is wide and high.
pub proof fn law_a_rectangle_holds_its_cells(r: Rect, column: u16, row: u16)
    requires
        r.x + r.width <= u16::MAX,
        r.y + r.height <= u16::MAX,
    ensures
        r.holds(column, row) <==> r.x <= column && column < r.x + r.width && r.y <= row && row < r.y + r.height,
        r.spec_right() == r.x + r.width,
        r.spec_bottom() == r.y + r.height,
{
}

/// Left and right lie along one axis, up and down along the other.
pub proof fn law_directions_have_their_axis(dir: Dir)
    ensures
        dir is Left || dir is Right ==> dir.spec_axis() is Horizontal,
        dir is Up || dir is Down ==> dir.spec_axis() is Vertical,
{
}

/// What lies to one side has the other to its other side, and shares no cell with it.
pub proof fn law_sides_are_mutual(a: Rect, b: Rect, column: u16, row: u16)
    requires
        a.x + a.width <= u16::MAX,
        a.y + a.height <= u16::MAX,
        b.x + b.width <= u16::MAX,
        b.y + b.height <= u16::MAX,
    ensures
        lies(Dir::Left, a, b) <==> lies(Dir::Right, b, a),
        lies(Dir::Up, a, b) <==> lies(Dir::Down, b, a),
        lies(Dir::Right, a, b) && a.holds(column, row) ==> !b.holds(column, row),
        lies(Dir::Down, a, b) && a.holds(column, row) ==> !b.holds(column, row),
        lies(Dir::Right, a, b) && a.width > 0 ==> a.x < b.x,
        lies(Dir::Left, a, b) && b.width > 0 ==> b.x < a.x,
        lies(Dir::Down, a, b) && a.height > 0 ==> a.y < b.y,
        lies(Dir::Up, a, b) && b.height > 0 ==> b.y < a.y,
        b.x == a.x + a.width ==> lies(Dir::Right, a, b),
        b.y == a.y + a.height ==> lies(Dir::Down, a, b),
{
}

/// The way to a pane is as long as between the middles. A cell along the way counts as far more
/// than a cell across it, and the way back is as long.
pub proof fn law_ways_are_measured(a: Rect, b: Rect)
    ensures
        travel(Dir::Left, a, b) == travel(Dir::Right, a, b),
        travel(Dir::Up, a, b) == travel(Dir::Down, a, b),
        travel(Dir::Left, a, b) == travel(Dir::Left, b, a),
        travel(Dir::Up, a, b) == travel(Dir::Up, b, a),
        a.y == b.y && a.height == b.height && a.width == b.width && a.x <= b.x ==> travel(Dir::Right, a, b) == 1024 * (
        b.x - a.x) && travel(Dir::Down, a, b) == b.x - a.x,
        a.x == b.x && a.height == b.height && a.width == b.width && a.y <= b.y ==> travel(Dir::Down, a, b) == 1024 * (
        b.y - a.y) && travel(Dir::Right, a, b) == b.y - a.y,
{
}

proof fn lemma_nearest(rects: Seq<(u64, Rect)>, current: u64, from: Rect, dir: Dir)
    ensures
        match nearest(rects, current, from, dir) {
            Some(p) => exists|k: int|
                {
                    &&& 0 <= k < rects.len()
                    &&& #[trigger] rects[k] == p
                    &&& p.0 != current
                    &&& lies(dir, from, p.1)
                    &&& forall|j: int|
                        0 <= j < rects.len() && (#[trigger] rects[j]).0 != current && lies(dir, from, rects[j].1) ==> {
                            ||| travel(dir, from, p.1) < travel(dir, from, rects[j].1)
                            ||| travel(dir, from, p.1) == travel(dir, from, rects[j].1) && k <= j
                        }
                },
            None => forall|j: int|
                0 <= j < rects.len() && (#[trigger] rects[j]).0 != current ==> !lies(dir, from, rects[j].1),
        },
    decreases rects.len(),
{
    if rects.len() > 0 {
        let rest = rects.drop_last();
        let n = rects.len() - 1;
        lemma_nearest(rest, current, from, dir);
        let best = nearest(rest, current, from, dir);
        let r = nearest(rects, current, from, dir);
        assert forall|j: int| 0 <= j < n implies rest[j] == #[trigger] rects[j] by {}
        if r is Some && r != best {
            assert(rects[n] == r->0);
        } else if r is Some {
            let p = r->0;
            let k = choose|k: int|
                {
                    &&& 0 <= k < rest.len()
                    &&& #[trigger] rest[k] == p
                    &&& p.0 != current
                    &&& lies(dir, from, p.1)
                    &&& forall|j: int|
                        0 <= j < rest.len() && (#[trigger] rest[j]).0 != current && lies(dir, from, rest[j].1) ==> {
                            ||| travel(dir, from, p.1) < travel(dir, from, rest[j].1)
                            ||| travel(dir, from, p.1) == travel(dir, from, rest[j].1) && k <= j
                        }
                };
            assert(rects[k] == p);
            assert forall|j: int|
                0 <= j < rects.len() && (#[trigger] rects[j]).0 != current && lies(dir, from, rects[j].1) implies {
                ||| travel(dir, from, p.1) < travel(dir, from, rects[j].1)
                ||| travel(dir, from, p.1) == travel(dir, from, rects[j].1) && k <= j
            } by {
                if j < n {
                    assert(rest[j] == rects[j]);
                }
            }
        }
    }
}

/// Moving goes to the pane that lies that way and is nearest, the first of those that are equally
/// near; it stays only where none lies that way.
pub proof fn law_moving_goes_to_the_nearest(t: TilingModel, dir: Dir, i: int)
    requires
        0 <= i < t.rects.len(),
        t.rects[i].0 == t.focus,
        forall|j: int| 0 <= j < i ==> (#[trigger] t.rects[j]).0 != t.focus,
    ensures
        match t.neighbour(dir) {
            Some(id) => exists|k: int|
                {
                    &&& 0 <= k < t.rects.len()
                    &&& (#[trigger] t.rects[k]).0 == id.0
                    &&& id.0 != t.focus
                    &&& lies(dir, t.rects[i].1, t.rects[k].1)
                    &&& forall|j: int|
                        0 <= j < t.rects.len() && (#[trigger] t.rects[j]).0 != t.focus && lies(
                            dir,
                            t.rects[i].1,
                            t.rects[j].1,
                        ) ==> {
                            ||| travel(dir, t.rects[i].1, t.rects[k].1) < travel(dir, t.rects[i].1, t.rects[j].1)
                            ||| travel(dir, t.rects[i].1, t.rects[k].1) == travel(dir, t.rects[i].1, t.rects[j].1) && k
                                <= j
                        }
                },
            None => forall|j: int|
                0 <= j < t.rects.len() && (#[trigger] t.rects[j]).0 != t.focus ==> !lies(
                    dir,
                    t.rects[i].1,
                    t.rects[j].1,
                ),
        },
{
    let test = crate::layout::tiling::of_pane(t.focus);
    lemma_first_where(t.rects, test);
    assert(test(t.rects[i]));
    let k = first_where(t.rects, test)->0;
    if k < i {
        assert(test(t.rects[k]));
    }
    if i < k {
        assert(!test(t.rects[i]));
    }
    lemma_nearest(t.rects, t.focus, t.rects[i].1, dir);
}

// -------------------------------------------------------------------------- the tree

/// The focus goes to a pane that is there, and stays where it was for one that is not.
pub proof fn law_the_focus_goes_to_a_pane(t: TilingModel, id: PaneId)
    ensures
        t.ids.contains(id.0) ==> t.focus(id) == (TilingModel { focus: id.0, ..t }),
        !t.ids.contains(id.0) ==> t.focus(id) == t,
{
}

/// A split puts a new pane right behind the one that has the focus, and gives it the focus. The
/// two share the place: the old one has its first side, the new one its second. The zoom ends.
pub proof fn law_a_split_shares_the_place(t: TilingModel, dir: Dir)
    requires
        t.ok(),
        !t.ids.contains(t.next),
    ensures
        ({
            let k = t.ids.index_of(t.focus);
            let place = t.paths[t.focus];
            let s = t.split(dir);
            &&& s.ids == t.ids.take(k + 1).push(t.next) + t.ids.skip(k + 1)
            &&& s.focus == t.next
            &&& s.next == t.next + 1 || t.next == u64::MAX
            &&& s.paths[t.focus] == place.push(0)
            &&& s.paths[t.next] == place.push(1)
            &&& forall|id: u64| id != t.focus && id != t.next ==> #[trigger] s.paths[id] == t.paths[id]
            &&& dir is Left || dir is Right ==> s.axes == t.axes.insert(place, crate::layout::tiling::Axis::Horizontal)
            &&& dir is Up || dir is Down ==> s.axes == t.axes.insert(place, crate::layout::tiling::Axis::Vertical)
            &&& s.shares == t.shares.insert(place, t.part)
            &&& s.zoomed is None
        }),
{
    let k = t.ids.index_of(t.focus);
    assert(t.ids.insert(k + 1, t.next) =~= t.ids.take(k + 1).push(t.next) + t.ids.skip(k + 1));
}

/// Closing removes the pane that has the focus, and no other. The panes beside it move up by one
/// step and the first of them has the focus; every other pane stays where it was. The last pane
/// is not closed.
pub proof fn law_closing_moves_the_others_up(t: TilingModel, id: u64)
    requires
        t.ok(),
        t.ids.len() > 1,
        t.ids.contains(id),
        id != t.focus,
        t.paths[t.focus].len() > 0,
    ensures
        ({
            let k = t.ids.index_of(t.focus);
            let path = t.paths[t.focus];
            let c = t.close();
            &&& c.ids == t.ids.take(k) + t.ids.skip(k + 1)
            &&& c.paths.contains_key(id)
            &&& !c.paths.contains_key(t.focus)
            &&& !beside(path).is_prefix_of(t.paths[id]) ==> c.paths[id] == t.paths[id]
            &&& beside(path).is_prefix_of(t.paths[id]) ==> c.paths[id] == path.drop_last() + t.paths[id].skip(
                path.len() as int,
            )
            &&& beside(path).is_prefix_of(t.paths[id]) ==> t.ids.contains(c.focus) && beside(path).is_prefix_of(
                t.paths[c.focus],
            ) && t.ids.index_of(c.focus) <= t.ids.index_of(id)
        }),
{
    let k = t.ids.index_of(t.focus);
    let path = t.paths[t.focus];
    assert(t.ids.remove(k) =~= t.ids.take(k) + t.ids.skip(k + 1));
    assert(t.ids.to_set().contains(id));
    let test = crate::layout::tiling::below(t.paths, beside(path));
    lemma_first_where(t.ids, test);
    if beside(path).is_prefix_of(t.paths[id]) {
        let i = t.ids.index_of(id);
        assert(test(t.ids[i]));
        let f = first_where(t.ids, test)->0;
        assert(test(t.ids[f]));
        assert(t.ids.index_of(t.ids[f]) == f);
    }
}

/// The place beside a place is the other side of its split.
pub proof fn law_beside_is_the_other_side(path: Seq<usize>, side: usize)
    requires
        side == 0 || side == 1,
    ensures
        side == 0 ==> beside(path.push(side)) == path.push(1),
        side == 1 ==> beside(path.push(side)) == path.push(0),
        beside(beside(path.push(side))) == path.push(side),
{
    assert(path.push(side).drop_last() =~= path);
    assert(path.push(1).drop_last() =~= path);
    assert(path.push(0).drop_last() =~= path);
}

/// Closing takes the split above the pane away; the splits of the other side move up with it.
pub proof fn law_splits_move_up<V>(splits: Map<Seq<usize>, V>, top: Seq<usize>, side: usize, rest: Seq<usize>)
    requires
        side == 0 || side == 1,
    ensures
        ({
            let after = splits_closed_up(splits, top.push(side));
            let from = top.push((1 - side) as usize) + rest;
            &&& after.contains_key(top + rest) <==> splits.contains_key(from)
            &&& after.contains_key(top + rest) ==> after[top + rest] == splits[from]
        }),
{
    let path = top.push(side);
    assert(path.drop_last() =~= top);
    assert((top + rest).skip(top.len() as int) =~= rest);
    assert(beside(path) =~= top.push((1 - side) as usize));
}

/// Splits elsewhere stay.
pub proof fn law_other_splits_stay<V>(splits: Map<Seq<usize>, V>, path: Seq<usize>, place: Seq<usize>)
    requires
        path.len() > 0,
        !path.drop_last().is_prefix_of(place),
    ensures
        splits_closed_up(splits, path).contains_key(place) <==> splits.contains_key(place),
        splits.contains_key(place) ==> splits_closed_up(splits, path)[place] == splits[place],
{
}

/// The zoom goes to the pane that has the focus, and ends where that is zoomed.
pub proof fn law_the_focus_is_zoomed(t: TilingModel)
    ensures
        t.zoomed == Some(PaneId(t.focus)) ==> t.toggle_zoom().zoomed is None,
        t.zoomed != Some(PaneId(t.focus)) ==> t.toggle_zoom().zoomed == Some(PaneId(t.focus)),
        t.toggle_zoom().ids == t.ids,
        t.toggle_zoom().focus == t.focus,
{
}

/// A pane is resized at the split above it: to the right or down, the first side grows if the pane
/// is on it and shrinks if not; to the left or up it is the other way round.
pub proof fn law_a_resize_moves_the_border_above(t: TilingModel, dir: Dir, place: Seq<usize>, side: usize)
    requires
        t.paths[t.focus] == place.push(side),
    ensures
        t.resize(dir) is Some,
        (t.resize(dir)->0).0 == place,
        dir is Right || dir is Down ==> ((t.resize(dir)->0).1 <==> side == 0),
        dir is Left || dir is Up ==> ((t.resize(dir)->0).1 <==> side != 0),
{
    assert(place.push(side).drop_last() =~= place);
}

/// A lone pane has no border to move.
pub proof fn law_a_lone_pane_is_not_resized(t: TilingModel, dir: Dir)
    requires
        t.paths[t.focus].len() == 0,
    ensures
        t.resize(dir) is None,
{
}

/// A share is kept between a tenth and nine tenths, one within stays, and what is no number is a
/// half.
pub proof fn law_shares_are_kept_in_bounds(bits: u32)
    ensures
        0x3dcc_cccd <= settled_share(bits) <= 0x3f66_6666,
        0x3dcc_cccd <= bits <= 0x3f66_6666 ==> settled_share(bits) == bits,
        bits < 0x3dcc_cccd ==> settled_share(bits) == 0x3dcc_cccd,
        0x3f66_6666 < bits < 0x7f80_0000 ==> settled_share(bits) == 0x3f66_6666,
        0x7f80_0000 <= bits < 0x8000_0000 ==> settled_share(bits) == 0x3f00_0000,
        0x8000_0000 <= bits < 0xff80_0000 ==> settled_share(bits) == 0x3dcc_cccd,
        0xff80_0000 <= bits ==> settled_share(bits) == 0x3f00_0000,
        HALF == 0x3f00_0000,
        LEAST_SHARE == 0x3dcc_cccd,
        MOST_SHARE == 0x3f66_6666,
{
}

/// Shares that differ differ either way, none differs from itself, and a share further away from
/// one that differs differs too.
pub proof fn law_shares_differ_by_how_far_apart_they_are(a: u32, b: u32, c: u32)
    requires
        0x3dcc_cccd <= a <= b <= c <= 0x3f66_6666,
    ensures
        in_steps(a) <= in_steps(b),
        a < b ==> in_steps(a) < in_steps(b),
        !differ(a, a),
        differ(a, b) <==> differ(b, a),
        differ(a, b) ==> differ(a, c),
        differ(b, c) ==> differ(a, c),
        b - a >= 16 ==> differ(a, b),
        b == a + 1 && a >= 0x3e80_0000 && b < 0x3f00_0000 ==> !differ(a, b),
{
}

/// A way goes to the first side by `0` and to the second by anything else.
pub proof fn law_a_way_goes_by_sides(path: Seq<usize>, i: int)
    requires
        0 <= i < path.len(),
    ensures
        place_of(path).len() == path.len(),
        path[i] == 0 ==> place_of(path)[i] == 0,
        path[i] != 0 ==> place_of(path)[i] == 1,
{
}

/// The next name is one more than the largest there is.
pub proof fn law_the_next_name_is_above_all(ids: Seq<u64>, i: int)
    requires
        0 <= i < ids.len(),
    ensures
        ids[i] <= largest(ids),
        ids.contains(largest(ids)),
        after(largest(ids)) == largest(ids) + 1 || largest(ids) == u64::MAX,
    decreases ids.len(),
{
    let rest = ids.drop_last();
    if ids.len() > 1 {
        law_the_next_name_is_above_all(rest, if i < rest.len() {
            i
        } else {
            0
        });
        let k = rest.index_of(largest(rest));
        assert(ids[k] == largest(rest));
    } else {
        assert(largest(rest) == 0);
    }
    assert(ids[ids.len() - 1] == ids.last());
}

/// A restored tiling has the focus and the zoom of its snapshot, as far as those panes are there.
pub proof fn law_a_restored_focus_is_there(s: TilingSnapshotModel, id: u64)
    requires
        s.ids.len() > 0,
    ensures
        s.focused == Some(id) && s.ids.contains(id) ==> s.restored().focus == id,
        s.focused == Some(id) && !s.ids.contains(id) ==> s.restored().focus == s.ids[0],
        s.focused is None ==> s.restored().focus == s.ids[0],
        s.zoomed == Some(id) && s.ids.contains(id) ==> s.restored().zoomed == Some(PaneId(id)),
        s.zoomed == Some(id) && !s.ids.contains(id) ==> s.restored().zoomed is None,
        s.zoomed is None ==> s.restored().zoomed is None,
        s.restored().ids == s.ids,
        s.restored().paths == s.paths,
        s.restored().axes == s.axes,
{
}

/// The place of a pane is the one that was given to it.
pub proof fn law_a_pane_is_where_it_was_put(rects: Seq<(u64, Rect)>, i: int)
    requires
        0 <= i < rects.len(),
        forall|j: int| 0 <= j < i ==> (#[trigger] rects[j]).0 != rects[i].0,
    ensures
        rect_of(rects, rects[i].0) == Some(rects[i].1),
{
    let test = crate::layout::tiling::of_pane(rects[i].0);
    lemma_first_where(rects, test);
    assert(test(rects[i]));
    let k = first_where(rects, test)->0;
    if k < i {
        assert(test(rects[k]));
    }
    if i < k {
        assert(!test(rects[i]));
    }
}

/// What is drawn is every pane at its place, the one that has the focus marked.
pub proof fn law_every_pane_is_drawn_at_its_place(t: TilingModel, i: int)
    requires
        0 <= i < t.rects.len(),
    ensures
        t.placements().len() == t.rects.len(),
        t.placements()[i].id.0 == t.rects[i].0,
        t.placements()[i].rect == t.rects[i].1,
        t.placements()[i].is_focused <==> t.rects[i].0 == t.focus,
{
}

/// A border is grabbed within reach of it: along its axis, inside its split.
pub proof fn law_a_border_is_grabbed_within_reach(
    s: (Seq<usize>, Rect, bool, u16),
    column: u16,
    row: u16,
    tolerance: u16,
)
    ensures
        grabbable(s, column, row, tolerance) <==> s.1.holds(column, row) && (if s.2 {
            column <= s.3 + tolerance && s.3 <= column + tolerance
        } else {
            row <= s.3 + tolerance && s.3 <= row + tolerance
        }),
        s.2 && column == s.3 ==> border_distance(s, column, row) == 0,
        !s.2 && row == s.3 ==> border_distance(s, column, row) == 0,
        border_distance(s, column, row) >= 0,
{
}

// -------------------------------------------------------------------------- what is kept

/// What is kept says which workspace has the focus, and in each workspace which room.
pub proof fn law_the_focus_is_kept(bar: WorkspacesModel, tilings: Map<Seq<char>, TilingModel>, i: int)
    requires
        0 <= i < bar.items.len(),
        bar.items[i].focused < bar.items[i].tabs.len(),
        forall|j: int| i < j < bar.items.len() ==> (#[trigger] bar.items[j]).id != bar.items[i].id,
    ensures
        bar.focused < bar.items.len() ==> captured(bar, tilings).workspace == Some(bar.items[bar.focused as int].id),
        bar.focused >= bar.items.len() ==> captured(bar, tilings).workspace is None,
        captured(bar, tilings).tabs.contains_key(bar.items[i].id),
        captured(bar, tilings).tabs[bar.items[i].id] == bar.items[i].tabs[bar.items[i].focused as int].room_id,
{
    lemma_captured_tabs(bar.items, i);
}

proof fn lemma_captured_tabs(items: Seq<WorkspaceModel>, i: int)
    requires
        0 <= i < items.len(),
        items[i].focused < items[i].tabs.len(),
        forall|j: int| i < j < items.len() ==> (#[trigger] items[j]).id != items[i].id,
    ensures
        captured_tabs(items).contains_key(items[i].id),
        captured_tabs(items)[items[i].id] == items[i].tabs[items[i].focused as int].room_id,
    decreases items.len(),
{
    let n = items.len() - 1;
    if i < n {
        let rest = items.drop_last();
        assert forall|j: int| i < j < rest.len() implies (#[trigger] rest[j]).id != rest[i].id by {
            assert(items[j].id != items[i].id);
        }
        lemma_captured_tabs(rest, i);
        assert(items[n].id != items[i].id);
    }
}

/// Of each pane its name, its kind and its title are kept, and come back as they were.
pub proof fn law_panes_are_kept(panes: Seq<PaneModel>, i: int)
    requires
        0 <= i < panes.len(),
    ensures
        saved_panes(panes).len() == panes.len(),
        restored_pane(saved_panes(panes)[i]).id == panes[i].id,
        restored_pane(saved_panes(panes)[i]).kind == panes[i].kind,
        restored_pane(saved_panes(panes)[i]).title == panes[i].title,
        restored_pane(saved_panes(panes)[i]).state is Idle,
{
}

/// What is kept is of this version, and nothing is kept of nothing.
pub proof fn law_what_is_kept_is_of_this_version(bar: WorkspacesModel, tilings: Map<Seq<char>, TilingModel>)
    ensures
        captured(bar, tilings).version == VERSION,
        LayoutModel::empty().version == VERSION,
        LayoutModel::empty().workspace is None,
        LayoutModel::empty().rooms.dom().is_empty(),
        LayoutModel::empty().tabs.dom().is_empty(),
        bar.items.len() == 0 ==> captured(bar, tilings).rooms.dom().is_empty() && captured(
            bar,
            tilings,
        ).tabs.dom().is_empty(),
{
}

} // verus!
