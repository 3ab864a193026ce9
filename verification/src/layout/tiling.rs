//! Thin facade over the BSP tiling engine.
//!
//! Every call into `ratatui-hypertile` is funnelled through this file. Swapping or forking
//! the engine means rewriting this file and nothing else.
//!
//! The engine keeps a binary tree of panes. What is known of it here is what its tree
//! holds: the panes in order, where each stands in the tree, which one has the focus,
//! and the rectangles it last worked out. How large a share a split gives to each side
//! is a fraction that only the engine computes with.

use ratatui_hypertile::raw::Node;
use ratatui_hypertile::{Hypertile, SplitSnapshot};
use vstd::prelude::*;

use crate::layout::model::PaneId;
use crate::seqs::{first_where, lemma_first_where};

verus! {

/// Which way to move focus, split, or resize.
#[derive(Debug, Clone, Copy, PartialEq, Eq, Structural)]
pub enum Dir {
    Left,
    Right,
    Up,
    Down,
}

/// The axis along which a split puts its two sides.
#[derive(Debug, Clone, Copy, PartialEq, Eq, Structural)]
pub enum Axis {
    /// Side by side.
    Horizontal,
    /// One above the other.
    Vertical,
}

impl Dir {
    /// The axis of a direction.
    pub open spec fn spec_axis(self) -> Axis {
        match self {
            Dir::Left | Dir::Right => Axis::Horizontal,
            Dir::Up | Dir::Down => Axis::Vertical,
        }
    }

    /// The axis of a direction.
    pub fn axis(self) -> (r: Axis)
        ensures
            r == self.spec_axis(),
    {
        match self {
            Dir::Left | Dir::Right => Axis::Horizontal,
            Dir::Up | Dir::Down => Axis::Vertical,
        }
    }
}

/// A rectangle of terminal cells.
#[derive(Debug, Clone, Copy, PartialEq, Eq, Structural)]
pub struct Rect {
    pub x: u16,
    pub y: u16,
    pub width: u16,
    pub height: u16,
}

impl DeepView for Rect {
    type V = Rect;

    open spec fn deep_view(&self) -> Rect {
        *self
    }
}

/// Addition that stops at the largest number.
pub open spec fn capped(a: u16, b: u16) -> u16 {
    if a + b > u16::MAX {
        u16::MAX
    } else {
        (a + b) as u16
    }
}

impl Rect {
    pub fn new(x: u16, y: u16, width: u16, height: u16) -> (r: Rect)
        ensures
            r == (Rect {
                x,
                y,
                width: (capped(x, width) - x) as u16,
                height: (capped(y, height) - y) as u16,
            }),
    {
        Rect { x, y, width: x.saturating_add(width) - x, height: y.saturating_add(height) - y }
    }

    /// The first column right of the rectangle.
    pub open spec fn spec_right(self) -> u16 {
        capped(self.x, self.width)
    }

    /// The first row below the rectangle.
    pub open spec fn spec_bottom(self) -> u16 {
        capped(self.y, self.height)
    }

    /// The first column right of the rectangle.
    pub fn right(self) -> (r: u16)
        ensures
            r == self.spec_right(),
    {
        self.x.saturating_add(self.width)
    }

    /// The first row below the rectangle.
    pub fn bottom(self) -> (r: u16)
        ensures
            r == self.spec_bottom(),
    {
        self.y.saturating_add(self.height)
    }

    /// How many cells the rectangle has.
    pub fn area(self) -> (r: u32)
        ensures
            r == self.width * self.height,
    {
        assert(self.width * self.height <= 0xffff * 0xffff) by (nonlinear_arith)
            requires
                self.width <= 0xffff,
                self.height <= 0xffff,
        ;
        self.width as u32 * self.height as u32
    }

    /// Whether a cell is inside.
    pub open spec fn holds(self, column: u16, row: u16) -> bool {
        self.x <= column < self.spec_right() && self.y <= row < self.spec_bottom()
    }

    /// Whether a cell is inside.
    pub fn contains(self, column: u16, row: u16) -> (r: bool)
        ensures
            r == self.holds(column, row),
    {
        self.x <= column && column < self.right() && self.y <= row && row < self.bottom()
    }

    /// Whether this rectangle does not reach outside another.
    pub open spec fn within(self, area: Rect) -> bool {
        &&& area.x <= self.x
        &&& area.y <= self.y
        &&& self.spec_right() <= area.spec_right()
        &&& self.spec_bottom() <= area.spec_bottom()
    }
}

// ------------------------------------------------------------------------ the engine

/// The tiling engine.
#[verifier::external_type_specification]
#[verifier::external_body]
pub struct ExHypertile(ratatui_hypertile::Hypertile);

/// A tree of panes, as the engine keeps it.
#[verifier::external_type_specification]
#[verifier::external_body]
pub struct ExNode(ratatui_hypertile::raw::Node);

/// A split as the engine tells of it, with its share.
#[verifier::external_type_specification]
#[verifier::external_body]
pub struct ExSplitSnapshot(ratatui_hypertile::SplitSnapshot);

/// The panes in the engine's tree, in the order of the tree.
pub uninterp spec fn tile_ids(h: Hypertile) -> Seq<u64>;

/// The pane in focus.
pub uninterp spec fn tile_focus(h: Hypertile) -> u64;

/// The number that the next new pane gets.
pub uninterp spec fn tile_next(h: Hypertile) -> u64;

/// The way from the top of the tree to each pane: `0` for the first side of a split, `1`
/// for the second.
pub uninterp spec fn tile_paths(h: Hypertile) -> Map<u64, Seq<usize>>;

/// How the sides of each split stand, by the way from the top of the tree to the split.
pub uninterp spec fn tile_axes(h: Hypertile) -> Map<Seq<usize>, Axis>;

/// The share of its area that the first side of each split has: the bits of the
/// single-precision number that the engine keeps, as IEEE 754 lays them out.
pub uninterp spec fn tile_shares(h: Hypertile) -> Map<Seq<usize>, u32>;

/// The share that a new split gives its first side, in bits.
pub uninterp spec fn tile_part(h: Hypertile) -> u32;

/// The rectangles last worked out, top to bottom and left to right; none since the tree
/// last changed.
pub uninterp spec fn tile_rects(h: Hypertile) -> Seq<(u64, Rect)>;

/// The splits of the tree, placed in the area last laid out: the way to each, the area
/// that it divides, whether its sides stand side by side, and the column or row at which
/// its second side begins. None before the first layout.
pub uninterp spec fn tile_splits(h: Hypertile) -> Seq<(Seq<usize>, Rect, bool, u16)>;

/// How many cells are left free between panes.
pub uninterp spec fn tile_gap(h: Hypertile) -> u16;

/// The panes in a tree, in order.
pub uninterp spec fn node_ids(n: Node) -> Seq<u64>;

/// The way from the top of a tree to each pane.
pub uninterp spec fn node_paths(n: Node) -> Map<u64, Seq<usize>>;

/// How the sides of each split of a tree stand.
pub uninterp spec fn node_axes(n: Node) -> Map<Seq<usize>, Axis>;

/// The share of its area that the first side of each split of a tree has, in bits.
pub uninterp spec fn node_shares(n: Node) -> Map<Seq<usize>, u32>;

/// The way from the top of a tree to a split that is told of.
pub uninterp spec fn told_path(s: SplitSnapshot) -> Seq<usize>;

/// The share of a split that is told of, in bits.
pub uninterp spec fn told_share(s: SplitSnapshot) -> u32;

/// The bits of one half.
pub const HALF: u32 = 0x3f00_0000;

/// The bits of one tenth, the smallest share there is.
pub const LEAST_SHARE: u32 = 0x3dcc_cccd;

/// The bits of nine tenths, the largest share there is.
pub const MOST_SHARE: u32 = 0x3f66_6666;

/// The share that the engine makes of a number: a half of one that is infinite or none at
/// all, else the nearest share between a tenth and nine tenths. Positive numbers stand in
/// the order of their bits; a negative one has the highest bit set.
pub open spec fn settled_share(bits: u32) -> u32 {
    if 0x7f80_0000 <= bits < 0x8000_0000 || 0xff80_0000 <= bits {
        HALF
    } else if bits >= 0x8000_0000 || bits < LEAST_SHARE {
        LEAST_SHARE
    } else if bits > MOST_SHARE {
        MOST_SHARE
    } else {
        bits
    }
}

/// The shares that the engine makes of these.
pub open spec fn settle(shares: Map<Seq<usize>, u32>) -> Map<Seq<usize>, u32> {
    shares.map_values(|bits: u32| settled_share(bits))
}

/// The place that a way leads to: whatever is not `0` stands for the second side.
pub open spec fn place_of(path: Seq<usize>) -> Seq<usize> {
    path.map_values(|side: usize| if side == 0 { 0usize } else { 1usize })
}

/// A settled share as a whole number, in steps of one part in two to the power of 27: of its
/// bits, the lowest 23 behind a leading one, doubled for each step of the exponent above that
/// of a tenth.
pub open spec fn in_steps(bits: u32) -> int {
    let digits = bits % 0x80_0000 + 0x80_0000;
    if bits < 0x3e00_0000 {
        digits
    } else if bits < 0x3e80_0000 {
        2 * digits
    } else if bits < 0x3f00_0000 {
        4 * digits
    } else {
        8 * digits
    }
}

/// Whether two settled shares differ by as much as the engine heeds: sixteen of those steps,
/// which is the distance from one to the next larger number.
pub open spec fn differ(a: u32, b: u32) -> bool {
    in_steps(a) - in_steps(b) >= 16 || in_steps(b) - in_steps(a) >= 16
}

/// Whether giving a split a share changes it: it is one of these, with another share.
pub open spec fn moves(shares: Map<Seq<usize>, u32>, path: Seq<usize>, bits: u32) -> bool {
    shares.contains_key(place_of(path)) && differ(shares[place_of(path)], settled_share(bits))
}

/// What holds of every engine and the pane in focus: there is a pane, no pane stands
/// twice, the focus is on one of them, and the rectangles are those of the panes. The
/// splits are those of the tree, each with a share that the engine leaves as it is, and a
/// single pane has none.
pub open spec fn tile_ok(h: Hypertile, focus: u64) -> bool {
    &&& tile_ids(h).len() > 0
    &&& tile_ids(h).no_duplicates()
    &&& tile_ids(h).contains(focus)
    &&& tile_paths(h).dom() == tile_ids(h).to_set()
    &&& tile_rects(h).len() > 0 ==> placed(tile_rects(h), tile_ids(h))
    &&& tile_shares(h).dom() == tile_axes(h).dom()
    &&& settle(tile_shares(h)) == tile_shares(h)
    &&& tile_ids(h).len() == 1 ==> tile_splits(h).len() == 0
    &&& forall|i: int| 0 <= i < tile_splits(h).len() ==> stands_as(#[trigger] tile_splits(h)[i], tile_axes(h))
}

/// Whether a placed split is one of these, and stands as it does.
pub open spec fn stands_as(s: (Seq<usize>, Rect, bool, u16), axes: Map<Seq<usize>, Axis>) -> bool {
    axes.contains_key(s.0) && s.2 == (axes[s.0] is Horizontal)
}

/// Whether a split is among those that were placed.
pub open spec fn split_placed(splits: Seq<(Seq<usize>, Rect, bool, u16)>, place: Seq<usize>) -> bool {
    exists|i: int| 0 <= i < splits.len() && (#[trigger] splits[i]).0 == place
}

/// Whether the border of a split runs between the panes on its two sides.
pub open spec fn runs_between(
    s: (Seq<usize>, Rect, bool, u16),
    rects: Seq<(u64, Rect)>,
    paths: Map<u64, Seq<usize>>,
) -> bool {
    &&& forall|i: int|
        0 <= i < rects.len() && on_side(paths, s.0, 0, (#[trigger] rects[i]).0) ==> if s.2 {
            rects[i].1.x + rects[i].1.width <= s.3
        } else {
            rects[i].1.y + rects[i].1.height <= s.3
        }
    &&& forall|i: int|
        0 <= i < rects.len() && on_side(paths, s.0, 1, (#[trigger] rects[i]).0) ==> if s.2 {
            s.3 <= rects[i].1.x
        } else {
            s.3 <= rects[i].1.y
        }
}

/// Whether every split of a tree was placed in an area, its border between the panes on its
/// two sides.
pub open spec fn splits_placed(
    splits: Seq<(Seq<usize>, Rect, bool, u16)>,
    rects: Seq<(u64, Rect)>,
    paths: Map<u64, Seq<usize>>,
    axes: Map<Seq<usize>, Axis>,
    area: Rect,
) -> bool {
    &&& forall|place: Seq<usize>| #[trigger] axes.contains_key(place) ==> split_placed(splits, place)
    &&& forall|i: int|
        0 <= i < splits.len() ==> (#[trigger] splits[i]).1.within(area) && runs_between(splits[i], rects, paths)
}

/// Whether these are rectangles for exactly these panes, top to bottom and left to right.
pub open spec fn placed(rects: Seq<(u64, Rect)>, ids: Seq<u64>) -> bool {
    &&& rects.len() == ids.len()
    &&& forall|i: int| 0 <= i < rects.len() ==> ids.contains((#[trigger] rects[i]).0)
    &&& forall|i: int, j: int|
        0 <= i < j < rects.len() ==> (#[trigger] rects[i]).0 != (#[trigger] rects[j]).0 && {
            ||| rects[i].1.y < rects[j].1.y
            ||| rects[i].1.y == rects[j].1.y && rects[i].1.x < rects[j].1.x
            ||| rects[i].1.y == rects[j].1.y && rects[i].1.x == rects[j].1.x && rects[i].0 < rects[j].0
        }
}

/// Whether some rectangle holds a cell.
pub open spec fn covered(rects: Seq<(u64, Rect)>, column: u16, row: u16) -> bool {
    exists|i: int| 0 <= i < rects.len() && (#[trigger] rects[i]).1.holds(column, row)
}

/// Whether rectangles divide an area among them: each cell of it is in one of them, and
/// none is in two.
pub open spec fn tiled(rects: Seq<(u64, Rect)>, area: Rect) -> bool {
    &&& forall|column: u16, row: u16| #[trigger] area.holds(column, row) ==> covered(rects, column, row)
    &&& forall|i: int, j: int, column: u16, row: u16|
        0 <= i < j < rects.len() && #[trigger] rects[i].1.holds(column, row) ==> !(#[trigger] rects[j].1.holds(column, row))
}

/// Whether a pane stands on this side of the split at a place in the tree.
pub open spec fn on_side(paths: Map<u64, Seq<usize>>, place: Seq<usize>, side: usize, id: u64) -> bool {
    place.push(side).is_prefix_of(paths[id])
}

/// Whether the rectangles stand as the splits of the tree do: what is on the first side of
/// a split is wholly left of, or above, what is on the second.
pub open spec fn arranged(
    rects: Seq<(u64, Rect)>,
    paths: Map<u64, Seq<usize>>,
    axes: Map<Seq<usize>, Axis>,
) -> bool {
    forall|i: int, j: int, place: Seq<usize>|
        0 <= i < rects.len() && 0 <= j < rects.len() && #[trigger] on_side(paths, place, 0, rects[i].0)
            && #[trigger] on_side(paths, place, 1, rects[j].0) ==> match axes[place] {
            Axis::Horizontal => rects[i].1.x + rects[i].1.width <= rects[j].1.x,
            Axis::Vertical => rects[i].1.y + rects[i].1.height <= rects[j].1.y,
        }
}

/// The number after `n`, stopping at the largest.
pub open spec fn after(n: u64) -> u64 {
    if n == u64::MAX {
        n
    } else {
        (n + 1) as u64
    }
}

/// The largest of some numbers; zero for none.
pub open spec fn largest(ids: Seq<u64>) -> u64
    decreases ids.len(),
{
    if ids.len() == 0 {
        0
    } else if largest(ids.drop_last()) > ids.last() {
        largest(ids.drop_last())
    } else {
        ids.last()
    }
}

/// Whether a pane stands below a place in the tree.
pub open spec fn below(paths: Map<u64, Seq<usize>>, place: Seq<usize>) -> spec_fn(u64) -> bool {
    |id: u64| place.is_prefix_of(paths[id])
}

/// The place in the tree beside the one that a path leads to.
pub open spec fn beside(path: Seq<usize>) -> Seq<usize> {
    path.drop_last().push((1 - path.last()) as usize)
}

/// The ways to the panes once the pane at `path` is gone and what stood beside it has
/// moved up.
pub open spec fn closed_up(paths: Map<u64, Seq<usize>>, id: u64) -> Map<u64, Seq<usize>> {
    let path = paths[id];
    paths.remove(id).map_values(
        |p: Seq<usize>|
            if beside(path).is_prefix_of(p) {
                path.drop_last() + p.skip(path.len() as int)
            } else {
                p
            },
    )
}

/// The splits that are left once the pane at `path` is gone and what stood beside it has
/// moved up: the split above the pane goes with it.
pub open spec fn splits_closed_up<V>(splits: Map<Seq<usize>, V>, path: Seq<usize>) -> Map<Seq<usize>, V> {
    let top = path.drop_last();
    let moved = |q: Seq<usize>| beside(path) + q.skip(top.len() as int);
    Map::new(
        |q: Seq<usize>|
            if top.is_prefix_of(q) {
                splits.contains_key(moved(q))
            } else {
                splits.contains_key(q)
            },
        |q: Seq<usize>|
            if top.is_prefix_of(q) {
                splits[moved(q)]
            } else {
                splits[q]
            },
    )
}

/// Nothing for any split.
pub open spec fn no_splits<V>() -> Map<Seq<usize>, V> {
    Map::empty()
}

/// `Hypertile::builder`, with halving splits and the focus highlighted: an engine with a
/// single pane, number zero, no rectangles yet, and no gaps.
#[verifier::external_body]
fn engine_new() -> (r: Hypertile)
    ensures
        tile_ok(r, tile_focus(r)),
        tile_ids(r) == seq![0u64],
        tile_focus(r) == 0,
        tile_next(r) == 1,
        tile_paths(r) == map![0u64 => Seq::<usize>::empty()],
        tile_axes(r) == no_splits::<Axis>(),
        tile_shares(r) == no_splits::<u32>(),
        tile_part(r) == HALF,
        tile_rects(r).len() == 0,
        tile_splits(r).len() == 0,
        tile_gap(r) == 0,
{
    Hypertile::builder()
        .with_split_policy(ratatui_hypertile::SplitPolicy::Half)
        .with_focus_highlight(true)
        .build()
}

/// `Hypertile::focused_pane`: the pane in focus, which is always one of the panes. The
/// engine keeps its tree, its focus and its rectangles in step, so [`tile_ok`] holds of
/// whatever engine is asked.
#[verifier::external_body]
fn engine_focused(h: &Hypertile) -> (r: Option<u64>)
    ensures
        r == Some(tile_focus(*h)),
        tile_ok(*h, r->0),
{
    h.focused_pane().map(ratatui_hypertile::PaneId::get)
}

/// `Hypertile::focus_pane`: the focus moves to a pane of the tree and nowhere else; the
/// rest is as it was.
#[verifier::external_body]
fn engine_focus(h: &mut Hypertile, id: u64) -> (r: bool)
    ensures
        r == tile_ids(*old(h)).contains(id),
        tile_ok(*final(h), tile_focus(*final(h))),
        tile_ids(*final(h)) == tile_ids(*old(h)),
        tile_focus(*final(h)) == (if r {
            id
        } else {
            tile_focus(*old(h))
        }),
        tile_next(*final(h)) == tile_next(*old(h)),
        tile_paths(*final(h)) == tile_paths(*old(h)),
        tile_axes(*final(h)) == tile_axes(*old(h)),
        tile_shares(*final(h)) == tile_shares(*old(h)),
        tile_rects(*final(h)) == tile_rects(*old(h)),
        tile_splits(*final(h)) == tile_splits(*old(h)),
        tile_gap(*final(h)) == tile_gap(*old(h)),
        tile_part(*final(h)) == tile_part(*old(h)),
{
    h.focus_pane(ratatui_hypertile::PaneId::new(id)).is_ok()
}

/// `Hypertile::split_focused`: the pane in focus is split, and the new pane stands right
/// behind it, in focus, with the next number; the pane keeps the share that the engine was
/// told to give. Nothing is split where that number is in
/// use already. A number is used up either way.
#[verifier::external_body]
fn engine_split(h: &mut Hypertile, axis: Axis) -> (r: Option<u64>)
    ensures
        tile_ok(*final(h), tile_focus(*final(h))),
        tile_gap(*final(h)) == tile_gap(*old(h)),
        tile_part(*final(h)) == tile_part(*old(h)),
        tile_next(*final(h)) == after(tile_next(*old(h))),
        if tile_ids(*old(h)).contains(tile_next(*old(h))) {
            &&& r is None
            &&& tile_ids(*final(h)) == tile_ids(*old(h))
            &&& tile_focus(*final(h)) == tile_focus(*old(h))
            &&& tile_paths(*final(h)) == tile_paths(*old(h))
            &&& tile_axes(*final(h)) == tile_axes(*old(h))
            &&& tile_shares(*final(h)) == tile_shares(*old(h))
            &&& tile_rects(*final(h)) == tile_rects(*old(h))
        } else {
            let id = tile_next(*old(h));
            let at = tile_focus(*old(h));
            let path = tile_paths(*old(h))[at];
            &&& r == Some(id)
            &&& tile_ids(*final(h)) == tile_ids(*old(h)).insert(tile_ids(*old(h)).index_of(at) + 1, id)
            &&& tile_focus(*final(h)) == id
            &&& tile_paths(*final(h)) == tile_paths(*old(h)).insert(at, path.push(0)).insert(id, path.push(1))
            &&& tile_axes(*final(h)) == tile_axes(*old(h)).insert(path, axis)
            &&& tile_shares(*final(h)) == tile_shares(*old(h)).insert(path, tile_part(*old(h)))
            &&& tile_rects(*final(h)).len() == 0
        },
{
    let direction = match axis {
        Axis::Horizontal => ratatui::layout::Direction::Horizontal,
        Axis::Vertical => ratatui::layout::Direction::Vertical,
    };
    h.split_focused(direction).ok().map(ratatui_hypertile::PaneId::get)
}

/// `Hypertile::close_focused`: the pane in focus goes, what stood beside it takes its
/// place, and the first pane of that has the focus. The last pane cannot be closed.
#[verifier::external_body]
fn engine_close(h: &mut Hypertile) -> (r: Option<u64>)
    ensures
        tile_ok(*final(h), tile_focus(*final(h))),
        tile_gap(*final(h)) == tile_gap(*old(h)),
        tile_part(*final(h)) == tile_part(*old(h)),
        tile_next(*final(h)) == tile_next(*old(h)),
        if tile_ids(*old(h)).len() == 1 {
            &&& r is None
            &&& tile_ids(*final(h)) == tile_ids(*old(h))
            &&& tile_focus(*final(h)) == tile_focus(*old(h))
            &&& tile_paths(*final(h)) == tile_paths(*old(h))
            &&& tile_axes(*final(h)) == tile_axes(*old(h))
            &&& tile_shares(*final(h)) == tile_shares(*old(h))
            &&& tile_rects(*final(h)) == tile_rects(*old(h))
        } else {
            let at = tile_focus(*old(h));
            let near = below(tile_paths(*old(h)), beside(tile_paths(*old(h))[at]));
            &&& r == Some(at)
            &&& tile_ids(*final(h)) == tile_ids(*old(h)).remove(tile_ids(*old(h)).index_of(at))
            &&& first_where(tile_ids(*old(h)), near) is Some
            &&& tile_focus(*final(h)) == tile_ids(*old(h))[first_where(tile_ids(*old(h)), near)->0]
            &&& tile_paths(*final(h)) == closed_up(tile_paths(*old(h)), at)
            &&& tile_axes(*final(h)) == splits_closed_up(tile_axes(*old(h)), tile_paths(*old(h))[at])
            &&& tile_shares(*final(h)) == splits_closed_up(tile_shares(*old(h)), tile_paths(*old(h))[at])
            &&& tile_rects(*final(h)).len() == 0
        },
{
    h.close_focused().ok().map(ratatui_hypertile::PaneId::get)
}

/// `Hypertile::root`, and a copy of the tree that it gives.
#[verifier::external_body]
fn engine_root(h: &Hypertile) -> (r: Node)
    ensures
        node_ids(r) == tile_ids(*h),
        node_paths(r) == tile_paths(*h),
        node_axes(r) == tile_axes(*h),
        node_shares(r) == tile_shares(*h),
{
    h.root().clone()
}

/// Why the engine refuses a change to its tree.
#[derive(Debug, Clone, Copy, PartialEq, Eq, Structural)]
pub enum StateError {
    InvalidPath,
    FocusedNodeNotPane,
    ParentNodeNotSplit,
    CannotRemoveRootPane,
    DuplicatePaneId(PaneId),
    UnknownPaneId(PaneId),
    LayoutUnavailable,
}

/// Whether a place of a list holds what an earlier place holds too.
pub open spec fn repeats(ids: Seq<u64>, i: int) -> bool {
    0 <= i < ids.len() && ids.take(i).contains(ids[i])
}

/// Whether this is the error about a tree with these panes: the first pane that stands in it
/// again.
pub open spec fn names_a_repeat(e: StateError, ids: Seq<u64>) -> bool {
    exists|i: int|
        #[trigger] repeats(ids, i) && (forall|j: int| 0 <= j < i ==> !repeats(ids, j)) && e
            == StateError::DuplicatePaneId(PaneId(ids[i]))
}

/// `Hypertile::set_root`, on a copy of the tree: a tree in which a pane stands twice is
/// refused with that pane named, and changes nothing. Else it is the engine's tree, with the
/// focus on its first pane, its shares settled, and numbers go on behind its largest.
#[verifier::external_body]
fn engine_set_root(h: &mut Hypertile, tree: &Node) -> (r: Result<(), StateError>)
    ensures
        tile_ok(*final(h), tile_focus(*final(h))),
        tile_gap(*final(h)) == tile_gap(*old(h)),
        tile_part(*final(h)) == tile_part(*old(h)),
        r is Ok == node_ids(*tree).no_duplicates(),
        r is Err ==> names_a_repeat(r->Err_0, node_ids(*tree)),
        if r is Ok {
            &&& tile_ids(*final(h)) == node_ids(*tree)
            &&& tile_focus(*final(h)) == node_ids(*tree)[0]
            &&& tile_next(*final(h)) == after(largest(node_ids(*tree)))
            &&& tile_paths(*final(h)) == node_paths(*tree)
            &&& tile_axes(*final(h)) == node_axes(*tree)
            &&& tile_shares(*final(h)) == settle(node_shares(*tree))
            &&& tile_rects(*final(h)).len() == 0
        } else {
            &&& tile_ids(*final(h)) == tile_ids(*old(h))
            &&& tile_focus(*final(h)) == tile_focus(*old(h))
            &&& tile_next(*final(h)) == tile_next(*old(h))
            &&& tile_paths(*final(h)) == tile_paths(*old(h))
            &&& tile_axes(*final(h)) == tile_axes(*old(h))
            &&& tile_shares(*final(h)) == tile_shares(*old(h))
            &&& tile_rects(*final(h)) == tile_rects(*old(h))
        },
{
    h.set_root(tree.clone()).map_err(|e| match e {
        ratatui_hypertile::StateError::InvalidPath => StateError::InvalidPath,
        ratatui_hypertile::StateError::FocusedNodeNotPane => StateError::FocusedNodeNotPane,
        ratatui_hypertile::StateError::ParentNodeNotSplit => StateError::ParentNodeNotSplit,
        ratatui_hypertile::StateError::CannotRemoveRootPane => StateError::CannotRemoveRootPane,
        ratatui_hypertile::StateError::DuplicatePaneId(id) => StateError::DuplicatePaneId(PaneId(id.get())),
        ratatui_hypertile::StateError::UnknownPaneId(id) => StateError::UnknownPaneId(PaneId(id.get())),
        ratatui_hypertile::StateError::LayoutUnavailable => StateError::LayoutUnavailable,
    })
}

/// `Hypertile::try_set_split_ratio`, with what a split is told to be: the split at that place
/// gets that share, settled, and the rectangles are no longer known. Where there is no such
/// split, or it has that share but for a rounding error, nothing changes.
#[verifier::external_body]
fn engine_set_share(h: &mut Hypertile, split: &SplitSnapshot) -> (r: bool)
    ensures
        r == moves(tile_shares(*old(h)), told_path(*split), told_share(*split)),
        tile_ok(*final(h), tile_focus(*final(h))),
        tile_ids(*final(h)) == tile_ids(*old(h)),
        tile_focus(*final(h)) == tile_focus(*old(h)),
        tile_next(*final(h)) == tile_next(*old(h)),
        tile_paths(*final(h)) == tile_paths(*old(h)),
        tile_axes(*final(h)) == tile_axes(*old(h)),
        tile_gap(*final(h)) == tile_gap(*old(h)),
        tile_part(*final(h)) == tile_part(*old(h)),
        if r {
            &&& tile_shares(*final(h)) == tile_shares(*old(h)).insert(
                place_of(told_path(*split)),
                settled_share(told_share(*split)),
            )
            &&& tile_rects(*final(h)).len() == 0
        } else {
            &&& tile_shares(*final(h)) == tile_shares(*old(h))
            &&& tile_rects(*final(h)) == tile_rects(*old(h))
            &&& tile_splits(*final(h)) == tile_splits(*old(h))
        },
{
    h.try_set_split_ratio(&split.path, split.ratio).unwrap_or(false)
}

/// `Hypertile::compute_layout`: every pane gets a rectangle inside the area, arranged as the
/// splits of the tree are, whose borders run between them. Without gaps the rectangles
/// divide the area among them, and a single pane gets all of it. Where an area is divided
/// at a split is left unsaid: the engine rounds a fraction of it.
#[verifier::external_body]
fn engine_layout(h: &mut Hypertile, area: Rect)
    ensures
        tile_ok(*final(h), tile_focus(*final(h))),
        tile_ids(*final(h)) == tile_ids(*old(h)),
        tile_focus(*final(h)) == tile_focus(*old(h)),
        tile_next(*final(h)) == tile_next(*old(h)),
        tile_paths(*final(h)) == tile_paths(*old(h)),
        tile_axes(*final(h)) == tile_axes(*old(h)),
        tile_shares(*final(h)) == tile_shares(*old(h)),
        placed(tile_rects(*final(h)), tile_ids(*final(h))),
        forall|i: int| 0 <= i < tile_rects(*final(h)).len() ==> (#[trigger] tile_rects(*final(h))[i]).1.within(area),
        arranged(tile_rects(*final(h)), tile_paths(*final(h)), tile_axes(*final(h))),
        splits_placed(
            tile_splits(*final(h)),
            tile_rects(*final(h)),
            tile_paths(*final(h)),
            tile_axes(*final(h)),
            area,
        ),
        tile_gap(*final(h)) == tile_gap(*old(h)),
        tile_part(*final(h)) == tile_part(*old(h)),
        tile_gap(*old(h)) == 0 ==> tiled(tile_rects(*final(h)), area),
        tile_gap(*old(h)) == 0 && tile_ids(*final(h)).len() == 1 ==> tile_rects(*final(h)) == seq![
            (tile_focus(*final(h)), area),
        ],
{
    h.compute_layout(ratatui::layout::Rect { x: area.x, y: area.y, width: area.width, height: area.height });
}

/// `Hypertile::panes_iter`: the panes with their rectangles, in geometric order.
#[verifier::external_body]
fn engine_rects(h: &Hypertile) -> (r: Vec<(u64, Rect)>)
    ensures
        r@ == tile_rects(*h),
{
    h.panes_iter()
        .map(|p| {
            let q = p.rect;
            (p.id.get(), Rect { x: q.x, y: q.y, width: q.width, height: q.height })
        })
        .collect()
}

/// The test for a pane's rectangle.
pub open spec fn of_pane(id: u64) -> spec_fn((u64, Rect)) -> bool {
    |p: (u64, Rect)| p.0 == id
}

/// The rectangle of a pane.
pub open spec fn rect_of(rects: Seq<(u64, Rect)>, id: u64) -> Option<Rect> {
    match first_where(rects, of_pane(id)) {
        Some(i) => Some(rects[i].1),
        None => None,
    }
}

/// `Hypertile::pane_rect`: the rectangle of a pane, where one has been worked out.
#[verifier::external_body]
fn engine_pane_rect(h: &Hypertile, id: u64) -> (r: Option<Rect>)
    ensures
        r == rect_of(tile_rects(*h), id),
{
    h.pane_rect(ratatui_hypertile::PaneId::new(id))
        .map(|q| Rect { x: q.x, y: q.y, width: q.width, height: q.height })
}

/// Whether this is the pane under a cell: one whose rectangle holds it, the one with the
/// smallest number where there are several, and none where there is none.
pub open spec fn pane_under(rects: Seq<(u64, Rect)>, column: u16, row: u16, r: Option<u64>) -> bool {
    match r {
        Some(id) => {
            &&& exists|i: int| 0 <= i < rects.len() && (#[trigger] rects[i]).0 == id && rects[i].1.holds(column, row)
            &&& forall|i: int| 0 <= i < rects.len() && (#[trigger] rects[i]).1.holds(column, row) ==> id <= rects[i].0
        },
        None => forall|i: int| 0 <= i < rects.len() ==> !(#[trigger] rects[i]).1.holds(column, row),
    }
}

/// `Hypertile::pane_at`: the pane under a cell.
#[verifier::external_body]
fn engine_pane_at(h: &Hypertile, column: u16, row: u16) -> (r: Option<u64>)
    ensures
        pane_under(tile_rects(*h), column, row, r),
{
    h.pane_at(column, row).map(ratatui_hypertile::PaneId::get)
}

/// `Hypertile::pane_path`: the way to a pane, where it is in the tree.
#[verifier::external_body]
fn engine_path(h: &Hypertile, id: u64) -> (r: Option<Vec<usize>>)
    ensures
        match r {
            Some(p) => tile_paths(*h).contains_key(id) && p@ == tile_paths(*h)[id],
            None => !tile_paths(*h).contains_key(id),
        },
{
    h.pane_path(ratatui_hypertile::PaneId::new(id))
}

/// How far a cell is from the border of a split.
pub open spec fn border_distance(s: (Seq<usize>, Rect, bool, u16), column: u16, row: u16) -> int {
    let at = if s.2 {
        column as int
    } else {
        row as int
    };
    if at < s.3 {
        s.3 - at
    } else {
        at - s.3
    }
}

/// Whether a split's border can be grabbed at a cell.
pub open spec fn grabbable(s: (Seq<usize>, Rect, bool, u16), column: u16, row: u16, tolerance: u16) -> bool {
    s.1.holds(column, row) && border_distance(s, column, row) <= tolerance
}

/// Whether this is the split whose border is under a cell: of those that can be grabbed
/// there the closest, and of equally close ones the deepest.
pub open spec fn split_under(
    splits: Seq<(Seq<usize>, Rect, bool, u16)>,
    column: u16,
    row: u16,
    tolerance: u16,
    r: Option<(Seq<usize>, Rect, bool)>,
) -> bool {
    match r {
        Some(s) => exists|i: int|
            {
                &&& 0 <= i < splits.len()
                &&& (#[trigger] splits[i]).0 == s.0 && splits[i].1 == s.1 && splits[i].2 == s.2
                &&& grabbable(splits[i], column, row, tolerance)
                &&& forall|j: int|
                    0 <= j < splits.len() && grabbable(#[trigger] splits[j], column, row, tolerance) ==> {
                        ||| border_distance(splits[i], column, row) < border_distance(splits[j], column, row)
                        ||| border_distance(splits[i], column, row) == border_distance(splits[j], column, row)
                            && splits[j].0.len() <= splits[i].0.len()
                    }
            },
        None => forall|j: int|
            0 <= j < splits.len() ==> !grabbable(#[trigger] splits[j], column, row, tolerance),
    }
}

/// The content of a split that was found.
pub open spec fn found_split(r: Option<(Vec<usize>, Rect, bool)>) -> Option<(Seq<usize>, Rect, bool)> {
    match r {
        Some(s) => Some((s.0@, s.1, s.2)),
        None => None,
    }
}

/// `Hypertile::split_at`: the split whose border is under a cell.
#[verifier::external_body]
fn engine_split_at(h: &Hypertile, column: u16, row: u16, tolerance: u16) -> (r: Option<(Vec<usize>, Rect, bool)>)
    ensures
        split_under(tile_splits(*h), column, row, tolerance, found_split(r)),
{
    h.split_at(column, row, tolerance).map(|s| {
        let q = s.rect;
        let along_x = match s.direction {
            ratatui::layout::Direction::Horizontal => true,
            ratatui::layout::Direction::Vertical => false,
        };
        (s.path, Rect { x: q.x, y: q.y, width: q.width, height: q.height }, along_x)
    })
}

/// `raw::collect_pane_ids`, on `Hypertile::root`: the panes of the tree in order, whether
/// or not there are rectangles for them.
#[verifier::external_body]
fn engine_ids(h: &Hypertile) -> (r: Vec<u64>)
    ensures
        r@ == tile_ids(*h),
{
    ratatui_hypertile::raw::collect_pane_ids(h.root()).into_iter().map(ratatui_hypertile::PaneId::get).collect()
}

// ------------------------------------------------------------------------ the facade

/// A pane's position after layout.
#[derive(Debug, Clone, Copy, PartialEq, Eq, Structural)]
pub struct Placement {
    pub id: PaneId,
    pub rect: Rect,
    pub is_focused: bool,
}

/// How near the pointer must be to a border to grab it, in cells.
///
/// Two adjacent panes each draw their own border, so the seam between them is two columns
/// wide; one cell of slack covers both without reaching into the transcript.
pub const GRAB_TOLERANCE: u16 = 1;

/// A split border the pointer has hold of.
///
/// Captured once when the drag begins and then reused, because the area a split divides
/// is fixed by its ancestors and does not move while its own share changes.
#[derive(Debug, PartialEq, Eq)]
pub struct SplitHandle {
    pub path: Vec<usize>,
    /// The area the split divides, not the border itself.
    pub rect: Rect,
    /// True when the children sit side by side, so the border moves along x.
    pub along_x: bool,
}

impl SplitHandle {
    /// How far along the divided area a cell is, and how long that area is: the share
    /// that would put the border there is the one over the other.
    pub open spec fn spec_offset_at(self, column: u16, row: u16) -> (u16, u16) {
        if self.along_x {
            (
                if column > self.rect.x {
                    (column - self.rect.x) as u16
                } else {
                    0
                },
                self.rect.width,
            )
        } else {
            (
                if row > self.rect.y {
                    (row - self.rect.y) as u16
                } else {
                    0
                },
                self.rect.height,
            )
        }
    }

    /// How far along the divided area a cell is, and how long that area is.
    pub fn offset_at(&self, column: u16, row: u16) -> (r: (u16, u16))
        ensures
            r == self.spec_offset_at(column, row),
    {
        if self.along_x {
            (column.saturating_sub(self.rect.x), self.rect.width)
        } else {
            (row.saturating_sub(self.rect.y), self.rect.height)
        }
    }
}

/// A change of a split's share that moves the pane in focus towards a direction: which
/// split, and whether its first side grows.
#[derive(Debug, PartialEq, Eq)]
pub struct Resize {
    pub path: Vec<usize>,
    pub grow_first: bool,
}

/// BSP tiling for one tab.
pub struct Tiling {
    inner: Hypertile,
    /// Set when a pane is zoomed to fill the tab.
    zoomed: Option<PaneId>,
    /// The last area laid out, needed to resolve clicks while zoomed.
    area: Rect,
}

/// The mathematical content of a [`Tiling`].
#[verifier::ext_equal]
pub struct TilingModel {
    pub ids: Seq<u64>,
    pub focus: u64,
    pub next: u64,
    pub paths: Map<u64, Seq<usize>>,
    pub axes: Map<Seq<usize>, Axis>,
    pub shares: Map<Seq<usize>, u32>,
    pub part: u32,
    pub rects: Seq<(u64, Rect)>,
    pub gap: u16,
    pub zoomed: Option<PaneId>,
    pub area: Rect,
}

impl View for Tiling {
    type V = TilingModel;

    closed spec fn view(&self) -> TilingModel {
        TilingModel {
            ids: tile_ids(self.inner),
            focus: tile_focus(self.inner),
            next: tile_next(self.inner),
            paths: tile_paths(self.inner),
            axes: tile_axes(self.inner),
            shares: tile_shares(self.inner),
            part: tile_part(self.inner),
            rects: tile_rects(self.inner),
            gap: tile_gap(self.inner),
            zoomed: self.zoomed,
            area: self.area,
        }
    }
}

impl DeepView for Tiling {
    type V = TilingModel;

    open spec fn deep_view(&self) -> TilingModel {
        self@
    }
}

/// Everything needed to rebuild a [`Tiling`] exactly as it was.
///
/// The tree is the engine's own, so split directions and shares persist without a second
/// representation of them that could drift out of step.
#[derive(Debug)]
pub struct TilingSnapshot {
    pub tree: Node,
    pub focused: Option<u64>,
    pub zoomed: Option<u64>,
}

/// The mathematical content of a [`TilingSnapshot`].
#[verifier::ext_equal]
pub struct TilingSnapshotModel {
    pub ids: Seq<u64>,
    pub paths: Map<u64, Seq<usize>>,
    pub axes: Map<Seq<usize>, Axis>,
    pub shares: Map<Seq<usize>, u32>,
    pub focused: Option<u64>,
    pub zoomed: Option<u64>,
}

impl View for TilingSnapshot {
    type V = TilingSnapshotModel;

    open spec fn view(&self) -> TilingSnapshotModel {
        TilingSnapshotModel {
            ids: node_ids(self.tree),
            paths: node_paths(self.tree),
            axes: node_axes(self.tree),
            shares: node_shares(self.tree),
            focused: self.focused,
            zoomed: self.zoomed,
        }
    }
}

impl DeepView for TilingSnapshot {
    type V = TilingSnapshotModel;

    open spec fn deep_view(&self) -> TilingSnapshotModel {
        self@
    }
}

/// Whether a pane lies wholly to one side of another.
pub open spec fn lies(dir: Dir, from: Rect, r: Rect) -> bool {
    match dir {
        Dir::Left => r.x + r.width <= from.x,
        Dir::Right => r.x >= from.x + from.width,
        Dir::Up => r.y + r.height <= from.y,
        Dir::Down => r.y >= from.y + from.height,
    }
}

/// The distance between two numbers.
pub open spec fn apart(a: int, b: int) -> int {
    if a < b {
        b - a
    } else {
        a - b
    }
}

/// How far a pane's middle is from another's: along the way first, then across it, so
/// that moving from a tall pane lands on the pane opposite rather than a distant corner.
pub open spec fn travel(dir: Dir, from: Rect, r: Rect) -> int {
    let dx = apart(r.x + r.width as int / 2, from.x + from.width as int / 2);
    let dy = apart(r.y + r.height as int / 2, from.y + from.height as int / 2);
    match dir {
        Dir::Left | Dir::Right => dx * 1024 + dy,
        Dir::Up | Dir::Down => dy * 1024 + dx,
    }
}

/// The nearest pane in a direction, the first in geometric order of equally near ones.
pub open spec fn nearest(rects: Seq<(u64, Rect)>, current: u64, from: Rect, dir: Dir) -> Option<(u64, Rect)>
    decreases rects.len(),
{
    if rects.len() == 0 {
        None
    } else {
        let best = nearest(rects.drop_last(), current, from, dir);
        let p = rects.last();
        if p.0 != current && lies(dir, from, p.1) && (best is None || travel(dir, from, p.1) < travel(
            dir,
            from,
            (best->0).1,
        )) {
            Some(p)
        } else {
            best
        }
    }
}

impl TilingModel {
    /// What holds of every tiling: there is a pane, no pane stands twice, the focus is on
    /// one of them, and each split has a share that stays as it is.
    pub open spec fn ok(self) -> bool {
        &&& self.ids.len() > 0
        &&& self.ids.no_duplicates()
        &&& self.ids.contains(self.focus)
        &&& self.paths.dom() == self.ids.to_set()
        &&& self.shares.dom() == self.axes.dom()
        &&& settle(self.shares) == self.shares
        &&& self.rects.len() > 0 ==> placed(self.rects, self.ids)
    }

    /// A tiling with one pane.
    pub open spec fn fresh() -> TilingModel {
        TilingModel {
            ids: seq![0u64],
            focus: 0,
            next: 1,
            paths: map![0u64 => Seq::<usize>::empty()],
            axes: Map::empty(),
            shares: Map::empty(),
            part: HALF,
            rects: Seq::empty(),
            gap: 0,
            zoomed: None,
            area: Rect { x: 0, y: 0, width: 0, height: 0 },
        }
    }

    /// The focus on a pane, where it is in the tree.
    pub open spec fn focus(self, id: PaneId) -> TilingModel {
        if self.ids.contains(id.0) {
            TilingModel { focus: id.0, ..self }
        } else {
            self
        }
    }

    /// The pane that a split would make.
    pub open spec fn split_id(self) -> Option<PaneId> {
        if self.ids.contains(self.next) {
            None
        } else {
            Some(PaneId(self.next))
        }
    }

    /// The tiling with the pane in focus split. Splitting ends a zoom: the new pane would
    /// be invisible otherwise.
    pub open spec fn split(self, dir: Dir) -> TilingModel {
        match self.split_id() {
            Some(id) => TilingModel {
                ids: self.ids.insert(self.ids.index_of(self.focus) + 1, id.0),
                focus: id.0,
                next: after(self.next),
                paths: self.paths.insert(self.focus, self.paths[self.focus].push(0)).insert(
                    id.0,
                    self.paths[self.focus].push(1),
                ),
                axes: self.axes.insert(self.paths[self.focus], dir.spec_axis()),
                shares: self.shares.insert(self.paths[self.focus], self.part),
                rects: Seq::empty(),
                zoomed: None,
                ..self
            },
            None => TilingModel { next: after(self.next), zoomed: None, ..self },
        }
    }

    /// The pane that closing takes away: the one in focus, unless it is the last.
    pub open spec fn close_id(self) -> Option<PaneId> {
        if self.ids.len() == 1 {
            None
        } else {
            Some(PaneId(self.focus))
        }
    }

    /// The tiling without the pane in focus. The focus goes to the first pane of what
    /// stood beside it; a zoom of the pane that goes ends.
    pub open spec fn close(self) -> TilingModel {
        match self.close_id() {
            Some(id) => TilingModel {
                ids: self.ids.remove(self.ids.index_of(self.focus)),
                focus: self.ids[first_where(self.ids, below(self.paths, beside(self.paths[self.focus])))->0],
                paths: closed_up(self.paths, self.focus),
                axes: splits_closed_up(self.axes, self.paths[self.focus]),
                shares: splits_closed_up(self.shares, self.paths[self.focus]),
                rects: Seq::empty(),
                zoomed: if self.zoomed == Some(id) {
                    None
                } else {
                    self.zoomed
                },
                ..self
            },
            None => self,
        }
    }

    /// The tiling with a share given to a split, where that changes it.
    pub open spec fn reshared(self, path: Seq<usize>, bits: u32) -> TilingModel {
        if moves(self.shares, path, bits) {
            TilingModel {
                shares: self.shares.insert(place_of(path), settled_share(bits)),
                rects: Seq::empty(),
                ..self
            }
        } else {
            self
        }
    }

    /// The pane that moving the focus in a direction reaches.
    pub open spec fn neighbour(self, dir: Dir) -> Option<PaneId> {
        match rect_of(self.rects, self.focus) {
            Some(from) => match nearest(self.rects, self.focus, from, dir) {
                Some(p) => Some(PaneId(p.0)),
                None => None,
            },
            None => None,
        }
    }

    /// The zoom put on the pane in focus, or taken off it.
    pub open spec fn toggle_zoom(self) -> TilingModel {
        TilingModel {
            zoomed: if self.zoomed == Some(PaneId(self.focus)) {
                None
            } else {
                Some(PaneId(self.focus))
            },
            ..self
        }
    }

    /// What is saved of a tiling.
    pub open spec fn snapshot(self) -> TilingSnapshotModel {
        TilingSnapshotModel {
            ids: self.ids,
            paths: self.paths,
            axes: self.axes,
            shares: self.shares,
            focused: Some(self.focus),
            zoomed: match self.zoomed {
                Some(z) => Some(z.0),
                None => None,
            },
        }
    }

    /// What resizing in a direction does: which split changes, and whether the share of
    /// its first side grows. It grows on the way right or down from the first side and on
    /// the way left or up from the second, and shrinks on the other ways. A pane that
    /// fills the tab has no share to change.
    pub open spec fn resize(self, dir: Dir) -> Option<(Seq<usize>, bool)> {
        let path = self.paths[self.focus];
        if path.len() == 0 {
            None
        } else {
            let first = path.last() == 0;
            let grow = match dir {
                Dir::Right | Dir::Down => first,
                Dir::Left | Dir::Up => !first,
            };
            Some((path.drop_last(), grow))
        }
    }
}

impl TilingSnapshotModel {
    /// The tiling that a snapshot stands for. The focus and the zoom are advisory: a pane
    /// that is not in the tree is passed over.
    pub open spec fn restored(self) -> TilingModel {
        TilingModel {
            ids: self.ids,
            focus: match self.focused {
                Some(id) => if self.ids.contains(id) {
                    id
                } else {
                    self.ids[0]
                },
                None => self.ids[0],
            },
            next: after(largest(self.ids)),
            paths: self.paths,
            axes: self.axes,
            shares: settle(self.shares),
            part: HALF,
            rects: Seq::empty(),
            gap: 0,
            zoomed: match self.zoomed {
                Some(id) => if self.ids.contains(id) {
                    Some(PaneId(id))
                } else {
                    None
                },
                None => None,
            },
            area: Rect { x: 0, y: 0, width: 0, height: 0 },
        }
    }
}

impl Default for Tiling {
    fn default() -> (r: Self)
        ensures
            r@ == TilingModel::fresh(),
    {
        Tiling::new()
    }
}

impl Tiling {
    pub fn new() -> (r: Self)
        ensures
            r@ == TilingModel::fresh(),
    {
        let r = Tiling { inner: engine_new(), zoomed: None, area: Rect { x: 0, y: 0, width: 0, height: 0 } };
        assert(r@ =~= TilingModel::fresh());
        r
    }

    /// Capture the tiling for persistence.
    pub fn snapshot(&self) -> (r: TilingSnapshot)
        ensures
            r@ == self@.snapshot(),
            self@.ok(),
    {
        TilingSnapshot {
            tree: engine_root(&self.inner),
            focused: engine_focused(&self.inner),
            zoomed: match self.zoomed {
                Some(z) => Some(z.0),
                None => None,
            },
        }
    }

    /// Rebuild a tiling from a snapshot.
    ///
    /// Refused where a pane stands twice in its tree: a file that has been edited by hand
    /// fails here rather than producing a tiling whose next split collides with an existing
    /// pane.
    pub fn restore(snapshot: &TilingSnapshot) -> (r: Result<Self, StateError>)
        ensures
            match r {
                Ok(t) => snapshot@.ids.no_duplicates() && t@ == snapshot@.restored() && t@.ok(),
                Err(e) => !snapshot@.ids.no_duplicates() && names_a_repeat(e, snapshot@.ids),
            },
    {
        let mut inner = engine_new();
        if let Err(e) = engine_set_root(&mut inner, &snapshot.tree) {
            return Err(e);
        }
        if let Some(id) = snapshot.focused {
            engine_focus(&mut inner, id);
        }
        let zoomed = match snapshot.zoomed {
            Some(id) => match engine_path(&inner, id) {
                Some(_) => Some(PaneId(id)),
                None => None,
            },
            None => None,
        };
        let t = Tiling { inner, zoomed, area: Rect { x: 0, y: 0, width: 0, height: 0 } };
        proof {
            assert(forall|id: u64| tile_paths(inner).contains_key(id) <==> tile_ids(inner).to_set().contains(id));
            assert(t@ =~= snapshot@.restored());
        }
        Ok(t)
    }

    /// The pane the user is interacting with.
    pub fn focused(&self) -> (r: Option<PaneId>)
        ensures
            r == Some(PaneId(self@.focus)),
            self@.ok(),
    {
        match engine_focused(&self.inner) {
            Some(id) => Some(PaneId(id)),
            None => None,
        }
    }

    /// Focus a specific pane.
    pub fn focus(&mut self, id: PaneId) -> (r: bool)
        ensures
            final(self)@ == old(self)@.focus(id),
            r == old(self)@.ids.contains(id.0),
    {
        engine_focus(&mut self.inner, id.0)
    }

    /// Split the focused pane, returning the new pane's id.
    pub fn split(&mut self, dir: Dir) -> (r: Option<PaneId>)
        ensures
            final(self)@ == old(self)@.split(dir),
            r == old(self)@.split_id(),
    {
        self.zoomed = None;
        let r = engine_split(&mut self.inner, dir.axis());
        assert(self@ =~= old(self)@.split(dir));
        match r {
            Some(id) => Some(PaneId(id)),
            None => None,
        }
    }

    /// Close the focused pane, returning its id.
    pub fn close_focused(&mut self) -> (r: Option<PaneId>)
        ensures
            final(self)@ == old(self)@.close(),
            r == old(self)@.close_id(),
    {
        let closed = match engine_close(&mut self.inner) {
            Some(id) => Some(PaneId(id)),
            None => None,
        };
        if let (Some(z), Some(c)) = (self.zoomed, closed) {
            if z == c {
                self.zoomed = None;
            }
        }
        assert(self@ =~= old(self)@.close());
        closed
    }

    /// Move focus geometrically.
    ///
    /// Uses the computed rectangles rather than the tree, so movement matches what the
    /// user sees rather than how the splits happen to nest.
    pub fn focus_dir(&mut self, dir: Dir) -> (r: Option<PaneId>)
        ensures
            r == old(self)@.neighbour(dir),
            final(self)@ == (match old(self)@.neighbour(dir) {
                Some(id) => TilingModel { focus: id.0, ..old(self)@ },
                None => old(self)@,
            }),
    {
        let current = match engine_focused(&self.inner) {
            Some(id) => id,
            None => {
                return None;
            },
        };
        let from = match engine_pane_rect(&self.inner, current) {
            Some(rect) => rect,
            None => {
                return None;
            },
        };
        let rects = engine_rects(&self.inner);
        let best = find_nearest(&rects, current, from, dir);
        match best {
            Some(id) => {
                proof {
                    lemma_nearest_is_placed(rects@, current, from, dir);
                }
                engine_focus(&mut self.inner, id);
                Some(PaneId(id))
            },
            None => None,
        }
    }

    /// What growing or shrinking the focused pane along `dir` changes, for whoever holds
    /// the shares to carry out.
    pub fn resize(&self, dir: Dir) -> (r: Option<Resize>)
        ensures
            match r {
                Some(c) => self@.resize(dir) == Some((c.path@, c.grow_first)),
                None => self@.resize(dir) is None,
            },
    {
        let id = match engine_focused(&self.inner) {
            Some(id) => id,
            None => {
                return None;
            },
        };
        let path = engine_path(&self.inner, id);
        proof {
            assert(tile_ids(self.inner).to_set().contains(id));
        }
        match path {
            Some(mut path) => {
                if path.len() == 0 {
                    return None;
                }
                let last = path.pop().unwrap();
                let first = last == 0;
                let grow_first = match dir {
                    Dir::Right | Dir::Down => first,
                    Dir::Left | Dir::Up => !first,
                };
                assert(path@ =~= self@.paths[self@.focus].drop_last());
                Some(Resize { path, grow_first })
            },
            None => None,
        }
    }

    /// Toggle zoom on the focused pane.
    pub fn toggle_zoom(&mut self)
        ensures
            final(self)@ == old(self)@.toggle_zoom(),
    {
        let focused = self.focused();
        self.zoomed = match (self.zoomed, focused) {
            (Some(z), Some(f)) => if z == f {
                None
            } else {
                focused
            },
            _ => focused,
        };
        assert(self@ =~= old(self)@.toggle_zoom());
    }

    pub fn is_zoomed(&self) -> (r: bool)
        ensures
            r == self@.zoomed is Some,
    {
        self.zoomed.is_some()
    }

    /// Compute rectangles for `area` and return them. A zoomed pane owns the whole area;
    /// the rest are not drawn.
    pub fn layout(&mut self, area: Rect) -> (r: Vec<Placement>)
        ensures
            final(self)@ == (TilingModel { rects: final(self)@.rects, area, ..old(self)@ }),
            placed(final(self)@.rects, final(self)@.ids),
            forall|i: int| 0 <= i < final(self)@.rects.len() ==> (#[trigger] final(self)@.rects[i]).1.within(area),
            arranged(final(self)@.rects, final(self)@.paths, final(self)@.axes),
            splits_placed(final(self).splits(), final(self)@.rects, final(self)@.paths, final(self)@.axes, area),
            old(self)@.gap == 0 ==> tiled(final(self)@.rects, area),
            old(self)@.gap == 0 && old(self)@.ids.len() == 1 ==> final(self)@.rects == seq![(old(self)@.focus, area)],
            r@ == (match final(self)@.zoomed {
                Some(z) => if rect_of(final(self)@.rects, z.0) is Some {
                    seq![(Placement { id: z, rect: area, is_focused: true })]
                } else {
                    final(self)@.placements()
                },
                None => final(self)@.placements(),
            }),
    {
        self.area = area;
        engine_layout(&mut self.inner, area);
        if let Some(zoomed) = self.zoomed {
            if engine_pane_rect(&self.inner, zoomed.0).is_some() {
                let mut out: Vec<Placement> = Vec::new();
                out.push(Placement { id: zoomed, rect: area, is_focused: true });
                return out;
            }
        }
        let rects = engine_rects(&self.inner);
        let focused = engine_focused(&self.inner);
        let mut out: Vec<Placement> = Vec::new();
        let mut i: usize = 0;
        while i < rects.len()
            invariant
                i <= rects.len(),
                rects@ == self@.rects,
                focused == Some(self@.focus),
                out@ == self@.placements().take(i as int),
            decreases rects.len() - i,
        {
            let (id, rect) = rects[i];
            let is_focused = match focused {
                Some(f) => f == id,
                None => false,
            };
            out.push(Placement { id: PaneId(id), rect, is_focused });
            assert(out@ =~= self@.placements().take(i + 1));
            i += 1;
        }
        assert(self@.placements().take(rects.len() as int) =~= self@.placements());
        out
    }

    /// Which pane is under a terminal cell, for click-to-focus. While a pane is zoomed it
    /// is under every cell of the tab.
    pub fn pane_at(&self, column: u16, row: u16) -> (r: Option<PaneId>)
        ensures
            match self@.zoomed {
                Some(z) => r == (if self@.area.holds(column, row) {
                    Some(z)
                } else {
                    None
                }),
                None => pane_under(
                    self@.rects,
                    column,
                    row,
                    match r {
                        Some(id) => Some(id.0),
                        None => None,
                    },
                ),
            },
    {
        if let Some(zoomed) = self.zoomed {
            return if self.area.contains(column, row) {
                Some(zoomed)
            } else {
                None
            };
        }
        match engine_pane_at(&self.inner, column, row) {
            Some(id) => Some(PaneId(id)),
            None => None,
        }
    }

    /// The splits of the tree, placed in the area last laid out.
    pub closed spec fn splits(&self) -> Seq<(Seq<usize>, Rect, bool, u16)> {
        tile_splits(self.inner)
    }

    /// The split border under a terminal cell, for drag-to-resize.
    ///
    /// `None` while zoomed: one pane fills the tab, so the borders on screen are its own
    /// and belong to no split the user could usefully move.
    pub fn split_at(&self, column: u16, row: u16) -> (r: Option<SplitHandle>)
        ensures
            if self@.zoomed is Some {
                r is None
            } else {
                split_under(
                    self.splits(),
                    column,
                    row,
                    GRAB_TOLERANCE,
                    match r {
                        Some(s) => Some((s.path@, s.rect, s.along_x)),
                        None => None,
                    },
                )
            },
            self@.ids.len() == 1 ==> r is None,
            r is Some ==> self@.axes.contains_key(r->0.path@) && r->0.along_x == (self@.axes[r->0.path@] is Horizontal),
    {
        let focused = engine_focused(&self.inner);
        if self.zoomed.is_some() {
            return None;
        }
        match engine_split_at(&self.inner, column, row, GRAB_TOLERANCE) {
            Some((path, rect, along_x)) => Some(SplitHandle { path, rect, along_x }),
            None => None,
        }
    }

    /// Give a split a share, and say whether that changed it. Whoever works a share out tells
    /// it the way the engine does; only the way to the split and the share are heeded.
    pub fn set_share(&mut self, split: &SplitSnapshot) -> (r: bool)
        ensures
            final(self)@ == old(self)@.reshared(told_path(*split), told_share(*split)),
            r == moves(old(self)@.shares, told_path(*split), told_share(*split)),
    {
        let r = engine_set_share(&mut self.inner, split);
        assert(self@ =~= old(self)@.reshared(told_path(*split), told_share(*split)));
        r
    }

    /// Every pane in the tree, whether or not a layout has been computed.
    ///
    /// A freshly restored tiling has panes long before it has geometry.
    pub fn pane_ids(&self) -> (r: Vec<PaneId>)
        ensures
            r@ == self@.ids.map_values(|id: u64| PaneId(id)),
    {
        let ids = engine_ids(&self.inner);
        let mut out: Vec<PaneId> = Vec::new();
        let mut i: usize = 0;
        while i < ids.len()
            invariant
                i <= ids.len(),
                ids@ == self@.ids,
                out@.len() == i,
                forall|j: int| 0 <= j < i ==> out@[j] == PaneId(ids@[j]),
            decreases ids.len() - i,
        {
            out.push(PaneId(ids[i]));
            i += 1;
        }
        out
    }

    /// Number of panes that have been placed.
    pub fn len(&self) -> (r: usize)
        ensures
            r == self@.rects.len(),
    {
        engine_rects(&self.inner).len()
    }

    pub fn is_empty(&self) -> (r: bool)
        ensures
            r == (self@.rects.len() == 0),
    {
        self.len() == 0
    }
}

impl TilingModel {
    /// Every pane with its rectangle.
    pub open spec fn placements(self) -> Seq<Placement> {
        Seq::new(
            self.rects.len(),
            |i: int|
                Placement { id: PaneId(self.rects[i].0), rect: self.rects[i].1, is_focused: self.rects[i].0 == self.focus },
        )
    }
}

fn gap(a: u32, b: u32) -> (r: u32)
    ensures
        r == apart(a as int, b as int),
{
    if a < b {
        b - a
    } else {
        a - b
    }
}

fn lies_towards(dir: Dir, from: Rect, r: Rect) -> (b: bool)
    ensures
        b == lies(dir, from, r),
{
    match dir {
        Dir::Left => r.x as u32 + r.width as u32 <= from.x as u32,
        Dir::Right => r.x as u32 >= from.x as u32 + from.width as u32,
        Dir::Up => r.y as u32 + r.height as u32 <= from.y as u32,
        Dir::Down => r.y as u32 >= from.y as u32 + from.height as u32,
    }
}

fn distance(dir: Dir, from: Rect, r: Rect) -> (d: u32)
    ensures
        d == travel(dir, from, r),
{
    let dx = gap(r.x as u32 + r.width as u32 / 2, from.x as u32 + from.width as u32 / 2);
    let dy = gap(r.y as u32 + r.height as u32 / 2, from.y as u32 + from.height as u32 / 2);
    match dir {
        Dir::Left | Dir::Right => dx * 1024 + dy,
        Dir::Up | Dir::Down => dy * 1024 + dx,
    }
}

fn find_nearest(rects: &Vec<(u64, Rect)>, current: u64, from: Rect, dir: Dir) -> (r: Option<u64>)
    ensures
        r == (match nearest(rects@, current, from, dir) {
            Some(p) => Some(p.0),
            None => None,
        }),
{
    let mut best: Option<(u64, Rect)> = None;
    let mut i: usize = 0;
    while i < rects.len()
        invariant
            i <= rects.len(),
            best == nearest(rects@.take(i as int), current, from, dir),
        decreases rects.len() - i,
    {
        assert(rects@.take(i + 1).drop_last() =~= rects@.take(i as int));
        let (id, rect) = rects[i];
        if id != current && lies_towards(dir, from, rect) {
            match best {
                Some((_, other)) => {
                    if distance(dir, from, rect) < distance(dir, from, other) {
                        best = Some((id, rect));
                    }
                },
                None => {
                    best = Some((id, rect));
                },
            }
        }
        i += 1;
    }
    assert(rects@.take(rects.len() as int) =~= rects@);
    match best {
        Some((id, _)) => Some(id),
        None => None,
    }
}

/// The nearest pane is one of the panes, lies in the direction, and no other that does is
/// nearer.
pub proof fn lemma_nearest_is_placed(rects: Seq<(u64, Rect)>, current: u64, from: Rect, dir: Dir)
    ensures
        match nearest(rects, current, from, dir) {
            Some(p) => {
                &&& rects.contains(p)
                &&& p.0 != current
                &&& lies(dir, from, p.1)
                &&& forall|i: int|
                    0 <= i < rects.len() && (#[trigger] rects[i]).0 != current && lies(dir, from, rects[i].1) ==> travel(
                        dir,
                        from,
                        p.1,
                    ) <= travel(dir, from, rects[i].1)
            },
            None => forall|i: int|
                0 <= i < rects.len() ==> (#[trigger] rects[i]).0 == current || !lies(dir, from, rects[i].1),
        },
    decreases rects.len(),
{
    if rects.len() > 0 {
        let rest = rects.drop_last();
        lemma_nearest_is_placed(rest, current, from, dir);
        let best = nearest(rects, current, from, dir);
        assert(rects[rects.len() - 1] == rects.last());
        if let Some(p) = nearest(rest, current, from, dir) {
            let k = rest.index_of(p);
            assert(rects[k] == p);
        }
        assert(forall|i: int| 0 <= i < rest.len() ==> rects[i] == #[trigger] rest[i]);
        assert forall|i: int| 0 <= i < rects.len() && i < rects.len() - 1 implies #[trigger] rects[i] == rest[i] by {}
    }
}

// ----------------------------------------------------------------------------- laws

/// A tiling that was saved and restored has the same panes in the same places, the same
/// splits with the same shares, the same focus, and the same zoom.
pub proof fn law_restoring_a_snapshot_gives_the_tiling_back(t: TilingModel)
    requires
        t.ok(),
        t.zoomed is Some ==> t.ids.contains((t.zoomed->0).0),
    ensures
        t.snapshot().restored().ids == t.ids,
        t.snapshot().restored().paths == t.paths,
        t.snapshot().restored().axes == t.axes,
        t.snapshot().restored().shares == t.shares,
        t.snapshot().restored().focus == t.focus,
        t.snapshot().restored().zoomed == t.zoomed,
{
}

/// A border that was moved is where it was left once the tiling has been saved and restored.
pub proof fn law_a_moved_border_survives(t: TilingModel, path: Seq<usize>, bits: u32)
    requires
        t.ok(),
    ensures
        t.reshared(path, bits).ok(),
        t.reshared(path, bits).snapshot().restored().shares == t.reshared(path, bits).shares,
        moves(t.shares, path, bits) ==> t.reshared(path, bits).snapshot().restored().shares[place_of(path)]
            == settled_share(bits),
{
    let after = t.reshared(path, bits);
    if moves(t.shares, path, bits) {
        assert(after.shares.dom() =~= t.axes.dom());
        assert forall|p: Seq<usize>| after.shares.contains_key(p) implies settle(after.shares)[p] == after.shares[p] by {
            if p != place_of(path) {
                assert(settle(t.shares)[p] == t.shares[p]);
            }
        }
        assert(settle(after.shares) =~= after.shares);
    }
}

/// Numbers go on behind the largest one restored, so a split after a restore does not
/// collide, short of the largest number there is.
pub proof fn law_a_split_after_a_restore_is_new(s: TilingSnapshotModel)
    requires
        largest(s.ids) < u64::MAX,
    ensures
        s.restored().split_id() is Some,
{
    lemma_largest(s.ids);
}

proof fn lemma_largest(ids: Seq<u64>)
    ensures
        forall|i: int| 0 <= i < ids.len() ==> ids[i] <= largest(ids),
    decreases ids.len(),
{
    if ids.len() > 0 {
        lemma_largest(ids.drop_last());
        assert forall|i: int| 0 <= i < ids.len() implies ids[i] <= largest(ids) by {
            if i < ids.len() - 1 {
                assert(ids[i] == ids.drop_last()[i]);
            }
        }
    }
}

/// A new pane has the focus, and ends a zoom: it is visible. It stands beside or below
/// the pane that was split, as asked.
pub proof fn law_a_split_is_visible(t: TilingModel, dir: Dir)
    requires
        t.ok(),
        t.split_id() is Some,
    ensures
        t.split(dir).focus == (t.split_id()->0).0,
        t.split(dir).zoomed is None,
        t.split(dir).ids.len() == t.ids.len() + 1,
        t.split(dir).axes[t.split(dir).paths[t.split(dir).focus].drop_last()] == dir.spec_axis(),
{
    let path = t.paths[t.focus];
    assert(path.push(1).drop_last() =~= path);
}

/// Zooming twice changes nothing, unless another pane was zoomed before.
pub proof fn law_zooming_twice_changes_nothing(t: TilingModel)
    requires
        t.zoomed is None || t.zoomed == Some(PaneId(t.focus)),
    ensures
        t.toggle_zoom().toggle_zoom() == t,
{
}

/// Moving reaches a pane wherever one lies wholly that way: another than the one it starts
/// from, and one that does lie that way.
pub proof fn law_moving_reaches_another_pane(t: TilingModel, dir: Dir, from: Rect)
    requires
        rect_of(t.rects, t.focus) == Some(from),
    ensures
        match t.neighbour(dir) {
            Some(id) => id.0 != t.focus && exists|i: int|
                0 <= i < t.rects.len() && (#[trigger] t.rects[i]).0 == id.0 && lies(dir, from, t.rects[i].1),
            None => forall|i: int|
                0 <= i < t.rects.len() && (#[trigger] t.rects[i]).0 != t.focus ==> !lies(dir, from, t.rects[i].1),
        },
{
    lemma_nearest_is_placed(t.rects, t.focus, from, dir);
    if let Some(p) = nearest(t.rects, t.focus, from, dir) {
        let k = t.rects.index_of(p);
        assert(t.rects[k] == p);
    }
}

/// Every cell of a tab that was laid out without gaps is in exactly one pane, so a click on
/// it always reaches one.
pub proof fn law_every_cell_has_one_pane(rects: Seq<(u64, Rect)>, area: Rect, column: u16, row: u16, found: Option<u64>)
    requires
        tiled(rects, area),
        area.holds(column, row),
        pane_under(rects, column, row, found),
    ensures
        found is Some,
        forall|i: int, j: int|
            0 <= i < rects.len() && 0 <= j < rects.len() && (#[trigger] rects[i]).1.holds(column, row) && (
            #[trigger] rects[j]).1.holds(column, row) ==> i == j,
{
    assert(covered(rects, column, row));
}

/// A border can be grabbed wherever it runs, give or take the tolerance, and nowhere else: a
/// click in the middle of a pane starts no resize.
pub proof fn law_only_a_border_is_grabbed(
    splits: Seq<(Seq<usize>, Rect, bool, u16)>,
    column: u16,
    row: u16,
    found: Option<(Seq<usize>, Rect, bool)>,
)
    requires
        split_under(splits, column, row, GRAB_TOLERANCE, found),
    ensures
        found is Some <==> exists|i: int|
            0 <= i < splits.len() && grabbable(#[trigger] splits[i], column, row, GRAB_TOLERANCE),
{
}

/// A new pane lies where it was asked for: once laid out, it is wholly right of the pane that
/// was split, or wholly below it. Moving back from it reaches a pane.
pub proof fn law_a_new_pane_lies_where_it_was_asked_for(t: TilingModel, dir: Dir, rects: Seq<(u64, Rect)>)
    requires
        t.ok(),
        t.split_id() is Some,
        placed(rects, t.split(dir).ids),
        arranged(rects, t.split(dir).paths, t.split(dir).axes),
    ensures
        ({
            let back = match dir {
                Dir::Left | Dir::Right => Dir::Left,
                Dir::Up | Dir::Down => Dir::Up,
            };
            let to = rect_of(rects, t.split(dir).focus);
            let from = rect_of(rects, t.focus);
            &&& to is Some
            &&& from is Some
            &&& lies(back, to->0, from->0)
            &&& (TilingModel { rects, ..t.split(dir) }).neighbour(back) is Some
        }),
{
    let s = t.split(dir);
    let path = t.paths[t.focus];
    let back = match dir {
        Dir::Left | Dir::Right => Dir::Left,
        Dir::Up | Dir::Down => Dir::Up,
    };
    lemma_inserted(t, dir);
    lemma_placed_has(rects, s.ids, s.focus);
    lemma_placed_has(rects, s.ids, t.focus);
    let i = first_where(rects, of_pane(t.focus))->0;
    let j = first_where(rects, of_pane(s.focus))->0;
    assert(on_side(s.paths, path, 0, rects[i].0));
    assert(on_side(s.paths, path, 1, rects[j].0));
    lemma_nearest_is_placed(rects, s.focus, rects[j].1, back);
    assert(rects[i].0 != s.focus && lies(back, rects[j].1, rects[i].1));
}

/// The new pane and the one that was split are panes of the tree that comes of it.
proof fn lemma_inserted(t: TilingModel, dir: Dir)
    requires
        t.ok(),
        t.split_id() is Some,
    ensures
        t.split(dir).ids.no_duplicates(),
        t.split(dir).ids.contains(t.focus),
        t.split(dir).ids.contains(t.next),
{
    let k = t.ids.index_of(t.focus);
    let ids = t.split(dir).ids;
    assert(t.ids[k] == t.focus);
    assert(ids[k] == t.focus);
    assert(ids[k + 1] == t.next);
    assert forall|i: int, j: int| 0 <= i < j < ids.len() implies ids[i] != ids[j] by {
        let a = if i <= k {
            i
        } else {
            i - 1
        };
        let b = if j <= k {
            j
        } else {
            j - 1
        };
        if i != k + 1 {
            assert(ids[i] == t.ids[a]);
        }
        if j != k + 1 {
            assert(ids[j] == t.ids[b]);
        }
    }
}

/// Every pane that was placed has a rectangle.
proof fn lemma_placed_has(rects: Seq<(u64, Rect)>, ids: Seq<u64>, id: u64)
    requires
        placed(rects, ids),
        ids.no_duplicates(),
        ids.contains(id),
    ensures
        first_where(rects, of_pane(id)) is Some,
        0 <= first_where(rects, of_pane(id))->0 < rects.len(),
        rects[first_where(rects, of_pane(id))->0].0 == id,
{
    let placed_ids = Seq::new(rects.len(), |i: int| rects[i].0);
    assert(placed_ids.no_duplicates());
    assert forall|x: u64| placed_ids.to_set().contains(x) implies ids.to_set().contains(x) by {
        let i = placed_ids.index_of(x);
        assert(rects[i].0 == x);
    }
    placed_ids.unique_seq_to_set();
    ids.unique_seq_to_set();
    vstd::set_lib::lemma_subset_equality(placed_ids.to_set(), ids.to_set());
    assert(placed_ids.to_set().contains(id));
    let i = placed_ids.index_of(id);
    assert(of_pane(id)(rects[i]));
    lemma_first_where(rects, of_pane(id));
}

} // verus!
