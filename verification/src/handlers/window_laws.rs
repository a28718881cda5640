//! How new windows are placed and framed, what commits do, and where focus goes
//! when a window closes, said case by case.
use vstd::prelude::*;

use crate::config::decoration::DecorationMode;
use crate::config::numbers;
use crate::config::numbers::Real;
use crate::geometry::{Point, Rect, Size};
use crate::grabs::resize_grab::ResizeEdge;
use crate::handlers::compositor;
use crate::handlers::compositor::{
    Deferred, FirstCommit, Follow, Growth, Neighbor, Placed, RectangleKind, Tiled, WireMode,
};
use crate::handlers::layer_shell;
use crate::handlers::layer_shell::CanvasLayerOf;
use crate::handlers::xdg_shell;
use crate::handlers::xdg_shell::{Closing, FocusAfter, LiveGrab};

verus! {

// ── Regions ──────────────────────────────────────────────────────────

/// Does some added rectangle have the given left, top, right or bottom side?
pub open spec fn touched(rects: Seq<(RectangleKind, Rect)>, side: int, v: int) -> bool {
    exists|i: int|
        0 <= i < rects.len() && (#[trigger] rects[i]).0 is Add && v == (if side == 0 {
            rects[i].1.loc.x as int
        } else if side == 1 {
            rects[i].1.loc.y as int
        } else if side == 2 {
            rects[i].1.loc.x + rects[i].1.size.w
        } else {
            rects[i].1.loc.y + rects[i].1.size.h
        })
}

proof fn lemma_still_touched(rects: Seq<(RectangleKind, Rect)>, side: int, v: int)
    requires
        rects.len() > 0,
        touched(rects.drop_last(), side, v),
    ensures
        touched(rects, side, v),
{
    let front = rects.drop_last();
    let i = choose|i: int|
        0 <= i < front.len() && (#[trigger] front[i]).0 is Add && v == (if side == 0 {
            front[i].1.loc.x as int
        } else if side == 1 {
            front[i].1.loc.y as int
        } else if side == 2 {
            front[i].1.loc.x + front[i].1.size.w
        } else {
            front[i].1.loc.y + front[i].1.size.h
        });
    assert(rects[i] == front[i]);
}

/// The bounds of a region hold every rectangle that was added to it, and each of
/// their sides is a side of one; what was taken from it does not matter. There
/// are none where nothing was added.
pub proof fn lemma_region_bounds_are_tight(rects: Seq<(RectangleKind, Rect)>)
    requires
        forall|i: int|
            0 <= i < rects.len() ==> (#[trigger] rects[i]).1.size.w >= 0 && rects[i].1.size.h >= 0,
    ensures
        match compositor::region_bounds(rects) {
            None => forall|i: int| 0 <= i < rects.len() ==> (#[trigger] rects[i]).0 is Subtract,
            Some((left, top, right, bottom)) => {
                &&& left <= right && top <= bottom
                &&& forall|i: int|
                    0 <= i < rects.len() && (#[trigger] rects[i]).0 is Add ==> left
                        <= rects[i].1.loc.x && top <= rects[i].1.loc.y && rects[i].1.loc.x
                        + rects[i].1.size.w <= right && rects[i].1.loc.y + rects[i].1.size.h
                        <= bottom
                &&& touched(rects, 0, left)
                &&& touched(rects, 1, top)
                &&& touched(rects, 2, right)
                &&& touched(rects, 3, bottom)
            },
        },
    decreases rects.len(),
{
    if rects.len() > 0 {
        let front = rects.drop_last();
        assert forall|i: int| 0 <= i < front.len() implies (#[trigger] front[i]).1.size.w >= 0
            && front[i].1.size.h >= 0 by {
            assert(front[i] == rects[i]);
        }
        lemma_region_bounds_are_tight(front);
        let n = rects.len() - 1;
        assert(rects[n] == rects.last());
        assert forall|i: int| 0 <= i < n implies rects[i] == front[i] by {}
        if let Some((left, top, right, bottom)) = compositor::region_bounds(front) {
            lemma_still_touched(rects, 0, left);
            lemma_still_touched(rects, 1, top);
            lemma_still_touched(rects, 2, right);
            lemma_still_touched(rects, 3, bottom);
        }
        if rects.last().0 is Add {
            let r = rects.last().1;
            assert(touched(rects, 0, r.loc.x as int));
            assert(touched(rects, 1, r.loc.y as int));
            assert(touched(rects, 2, r.loc.x + r.size.w));
            assert(touched(rects, 3, r.loc.y + r.size.h));
        }
    }
}

/// The corners that a client-drawn frame loses are squares, two larger than its
/// radius, one in each corner of its region; a region with no room for four of
/// them loses none.
pub proof fn lemma_carved_corners(rects: Seq<(RectangleKind, Rect)>, radius: int)
    requires
        0 <= radius < 1000000,
        compositor::region_bounds(rects) matches Some((left, top, right, bottom)) ==> -1000000000
            <= left && right <= 1000000000 && -1000000000 <= top && bottom <= 1000000000,
    ensures
        match compositor::region_bounds(rects) {
            None => compositor::carved(rects, radius).len() == 0,
            Some((left, top, right, bottom)) => {
                let c = compositor::carved(rects, radius);
                let side = radius + 2;
                if right - left <= 2 * side || bottom - top <= 2 * side {
                    c.len() == 0
                } else {
                    &&& c.len() == 4
                    &&& forall|i: int|
                        0 <= i < 4 ==> (#[trigger] c[i]).size.w == side && c[i].size.h == side
                    &&& c[0].loc.x == left && c[0].loc.y == top
                    &&& c[1].loc.x + side == right && c[1].loc.y == top
                    &&& c[2].loc.x + side == right && c[2].loc.y + side == bottom
                    &&& c[3].loc.x == left && c[3].loc.y + side == bottom
                }
            },
        },
{
}

// ── Decoration ───────────────────────────────────────────────────────

/// A rule decides who draws the frame. Without one, the word that was negotiated
/// does, and without that the default; only frames that the client draws are
/// announced as the client's.
pub proof fn lemma_who_draws_the_frame(
    m: DecorationMode,
    w: Option<WireMode>,
    default_mode: DecorationMode,
)
    ensures
        compositor::wire_of(m) is ClientSide <==> m is Client,
        compositor::new_window_mode(Some(m), w, default_mode) == m,
        compositor::new_window_mode(None, None, default_mode) == default_mode,
        compositor::new_window_mode(None, Some(WireMode::ClientSide), default_mode)
            == DecorationMode::Client,
        compositor::new_window_mode(None, Some(WireMode::ServerSide), default_mode) == (
        if default_mode is Client {
            DecorationMode::Server
        } else {
            default_mode
        }),
{
}

// ── Placement ────────────────────────────────────────────────────────

/// Is a rule's position given?
pub open spec fn rule_places(f: FirstCommit) -> bool {
    f.rule is Some && f.rule->0.position is Some
}

/// A window goes where its rule says; else over its parent; else behind the
/// fullscreen window in its way; else by the cursor or automatically, as is set
/// and as far as there is such a place; else to the middle. Only the last three
/// move away from windows that are there already. It is activated unless it is a
/// widget or behind another.
pub proof fn lemma_where_a_window_goes(f: FirstCommit)
    requires
        f.size.w > 0 && f.size.h > 0,
        !f.is_fullscreen && !f.is_fit,
        f.rule is Some ==> f.rule->0.size is None && !f.rule->0.pinned_to_screen,
    ensures
        match compositor::placed_by(f) {
            Placed::OnCanvas { pos, cascade, activate, by_cursor, in_background } => {
                let fixed = rule_places(f) || f.parent is Some || f.background is Some;
                let widget = f.rule is Some && f.rule->0.widget;
                &&& cascade == !fixed
                &&& in_background == (f.background is Some && !rule_places(f) && f.parent is None)
                &&& by_cursor == (!fixed && f.placement is Cursor && f.at_cursor is Some)
                &&& activate == (!widget && !in_background)
                &&& in_background ==> Some(pos) == f.background
                &&& by_cursor ==> Some(pos) == f.at_cursor
                &&& !fixed && f.placement is Auto && f.automatic is Some ==> Some(pos)
                    == f.automatic
                &&& !fixed && f.placement is Auto && f.automatic is None ==> pos == f.at_center
                &&& !fixed && f.placement is Cursor && f.at_cursor is None ==> pos == f.at_center
                &&& !fixed && f.placement is Center ==> pos == f.at_center
            },
            _ => false,
        },
{
}

/// A window over its parent has its middle on the parent's, within one.
pub proof fn lemma_child_is_centered(parent: (Point, Size), size: Size)
    requires
        0 <= parent.1.w && 0 <= parent.1.h && 0 <= size.w && 0 <= size.h,
        -1000000000 <= parent.0.x <= 1000000000 && -1000000000 <= parent.0.y <= 1000000000,
        parent.1.w <= 1000000000 && parent.1.h <= 1000000000 && size.w <= 1000000000 && size.h
            <= 1000000000,
    ensures
        ({
            let p = compositor::over_parent(parent, size);
            &&& -1 <= (2 * p.x + size.w) - (2 * parent.0.x + parent.1.w) <= 1
            &&& -1 <= (2 * p.y + size.h) - (2 * parent.0.y + parent.1.h) <= 1
        }),
{
}

/// A window that a rule gives a size is sent that size first; one that a rule
/// pins goes to its output, unless it is fullscreen or has no size; and what is
/// fullscreen, fitted or without a size stays where it is.
pub proof fn lemma_what_comes_before_the_canvas(f: FirstCommit)
    ensures
        ({
            let p = compositor::placed_by(f);
            let waits = f.rule is Some && f.rule->0.size is Some && !f.pending.size;
            let pins = f.rule is Some && f.rule->0.pinned_to_screen && f.pin_output is Some
                && f.size.w > 0 && f.size.h > 0 && !f.is_fullscreen;
            &&& waits && f.has_toplevel <==> p is ForceSize
            &&& p matches Placed::ForceSize(s) ==> (s.w, s.h) == f.rule->0.size->0
            &&& waits && !f.has_toplevel ==> p is Stay
            &&& !waits && pins <==> p is Pin
            &&& p matches Placed::Pin { activate, .. } ==> activate == !f.rule->0.widget
            &&& !waits && !pins && (f.size.w <= 0 || f.size.h <= 0 || f.is_fullscreen || f.is_fit)
                ==> p is Stay
        }),
{
}

/// The view follows a window that has arrived unless it is a widget, goes to the
/// background, or is or becomes fullscreen or fitted; a pinned one, or one by the
/// cursor in a view that keeps its zoom, is only raised.
pub proof fn lemma_how_the_view_follows(f: FirstCommit, pinned: bool)
    ensures
        ({
            let plan = compositor::plan_of(f, pinned);
            let widget = f.rule is Some && f.rule->0.widget;
            let wants_fullscreen = f.pending.fullscreen || (f.rule is Some && f.rule->0.fullscreen
                == Some(true));
            let behind = plan.placed matches Placed::OnCanvas { in_background, .. }
                && in_background;
            let by_cursor = plan.placed matches Placed::OnCanvas { by_cursor, .. } && by_cursor;
            let zooms = f.reset_zoom && numbers::less(
                f.zoom,
                Real { bits: 0x3fef_ffff_ff76_8fa1 },
            );
            let quiet = !plan.arrived || widget || f.is_fullscreen || behind || f.pending.fit
                || wants_fullscreen;
            &&& plan.follow is Nothing <==> quiet
            &&& plan.follow is Raise <==> !quiet && (pinned || plan.placed is Pin || (by_cursor
                && !zooms))
            &&& plan.follow matches Follow::Navigate { reset_zoom } ==> reset_zoom == f.reset_zoom
            &&& plan.deferred is Fullscreen <==> plan.arrived && wants_fullscreen
            &&& plan.deferred is Fit <==> plan.arrived && !wants_fullscreen && f.pending.fit
        }),
{
}

/// A window has arrived once it has a size and none is sent to it; what was
/// pending is done with by that, but for a fit that fullscreen comes before.
pub proof fn lemma_what_is_left_pending(f: FirstCommit, pinned: bool)
    ensures
        ({
            let plan = compositor::plan_of(f, pinned);
            let wants_fullscreen = f.pending.fullscreen || (f.rule is Some && f.rule->0.fullscreen
                == Some(true));
            let sized = f.size.w > 0 && f.size.h > 0;
            &&& plan.arrived <==> sized && !(plan.placed is ForceSize)
            &&& plan.arrived ==> !plan.pending.center && !plan.pending.size
                && !plan.pending.fullscreen && plan.pending.fit == (wants_fullscreen
                && f.pending.fit)
            &&& !plan.arrived ==> plan.pending.center && plan.pending.fullscreen
                == f.pending.fullscreen && plan.pending.fit == f.pending.fit && plan.pending.size
                == (f.pending.size || plan.placed is ForceSize)
            &&& plan.keep_restore_size == (sized && !f.is_fit && !f.is_fullscreen)
        }),
{
}

/// How a new window is framed: the mode is its rule's, or the one negotiated by
/// its toplevel, or the default; a rule's mode is announced; the server draws for
/// every mode but the client's, and makes a title bar once, for its own mode.
/// Widgets and bare windows are not tiled, and others are told to be.
pub proof fn lemma_how_a_window_is_framed(f: FirstCommit, pinned: bool)
    ensures
        ({
            let plan = compositor::plan_of(f, pinned);
            let widget = f.rule is Some && f.rule->0.widget;
            let ruled = f.rule is Some && f.rule->0.decoration is Some;
            &&& ruled ==> Some(plan.mode) == f.rule->0.decoration
            &&& !ruled && (f.negotiated is None || !f.has_toplevel) ==> plan.mode == f.default_mode
            &&& plan.wire is Some <==> f.has_toplevel && ruled
            &&& plan.wire matches Some(w) ==> (w is ClientSide <==> plan.mode is Client)
            &&& plan.pending_ssd <==> !(plan.mode is Client)
            &&& plan.create_decoration <==> plan.arrived && plan.mode is Server
                && !f.has_decoration
            &&& plan.widget_effects <==> widget && !f.already_applied
            &&& plan.tiled is Silent <==> !f.has_toplevel
            &&& plan.tiled is Unset <==> f.has_toplevel && (widget || plan.mode is Bare)
            &&& plan.tiled matches Tiled::Hint(s) ==> (s is None <==> f.already_sized
                || plan.placed is ForceSize) && (s is Some ==> s->0 == f.size)
        }),
{
}

// ── Later commits ────────────────────────────────────────────────────

/// A window grew if it is wider or higher than when it settled; one that shrank
/// in both did not, and neither did one of which either is not known.
pub proof fn lemma_when_a_window_grew(g: Growth, w: Real, h: Real)
    ensures
        g.settled is None || g.footprint is None ==> !compositor::grew(g),
        g.settled == Some((w, h)) && g.footprint is Some ==> (compositor::grew(g) <==> (
        numbers::less(w, (g.footprint->0).0) || numbers::less(h, (g.footprint->0).1))),
        g.settled == Some((w, h)) && g.footprint == Some((w, h)) ==> !compositor::grew(g),
{
}

/// The neighbor that a grown window goes beside is the first that it was snapped
/// to.
pub proof fn lemma_first_adjacent_is_first(neighbors: Seq<Neighbor>, i: int)
    requires
        0 <= i <= neighbors.len(),
        forall|j: int| 0 <= j < i ==> !(#[trigger] neighbors[j]).is_adjacent,
        i < neighbors.len() ==> neighbors[i].is_adjacent,
    ensures
        compositor::first_adjacent(neighbors) == (if i < neighbors.len() {
            Some(neighbors[i].id)
        } else {
            None
        }),
    decreases neighbors.len(),
{
    if neighbors.len() > 0 {
        let front = neighbors.drop_last();
        assert forall|j: int| 0 <= j < front.len() implies front[j] == neighbors[j] by {}
        if i < neighbors.len() {
            lemma_first_adjacent_is_first(front, i);
        } else {
            lemma_first_adjacent_is_first(front, front.len() as int);
            assert(!neighbors[neighbors.len() - 1].is_adjacent);
        }
    }
}

// ── Closing ──────────────────────────────────────────────────────────

/// Focus follows to another modal child of the parent, or to the parent; without
/// a parent, to what is related.
pub proof fn lemma_whom_focus_follows(
    closing: u64,
    p: u64,
    m: u64,
    modal_child: Option<u64>,
    related: Option<u64>,
)
    ensures
        xdg_shell::follow_candidate(closing, None, modal_child, related) == related,
        m != closing ==> xdg_shell::follow_candidate(closing, Some(p), Some(m), related) == Some(m),
        xdg_shell::follow_candidate(closing, Some(p), Some(closing), related) == Some(p),
        xdg_shell::follow_candidate(closing, Some(p), None, related) == Some(p),
{
}

/// The most recent other window is the first of the history that is not the one
/// that closes.
pub proof fn lemma_most_recent_is_first(history: Seq<u64>, closing: u64, i: int)
    requires
        0 <= i <= history.len(),
        forall|j: int| 0 <= j < i ==> #[trigger] history[j] == closing,
        i < history.len() ==> history[i] != closing,
    ensures
        xdg_shell::most_recent(history, closing) == (if i < history.len() {
            Some(history[i])
        } else {
            None
        }),
    decreases i,
{
    if i > 0 {
        assert(history[0] == closing);
        let rest = history.drop_first();
        assert forall|j: int| 0 <= j < i - 1 implies #[trigger] rest[j] == closing by {
            assert(rest[j] == history[j + 1]);
        }
        lemma_most_recent_is_first(rest, closing, i - 1);
    }
}

/// Focus is kept unless the closing window had it, had it last, or nothing has
/// it. It follows to a window in view by raising it, and to one out of view by
/// moving there where that is allowed. Otherwise the most recent window is raised
/// if it can be seen, else the nearest that can be, on the output of the closing
/// one; and with none the focus is cleared.
pub proof fn lemma_where_focus_goes(c: Closing)
    ensures
        ({
            let r = xdg_shell::focus_after(c);
            let lost = c.had_focus || c.was_last_focused || c.no_focus;
            let follows = c.follow is Some && (c.auto_navigate || c.follow_in_view);
            &&& r is Keep <==> !lost
            &&& lost && follows && c.follow_in_view ==> r == FocusAfter::Raise(c.follow->0)
            &&& lost && follows && !c.follow_in_view ==> r == FocusAfter::Navigate(c.follow->0)
            &&& lost && !follows && c.has_home && c.recent is Some && c.recent_visible ==> r
                == FocusAfter::Raise(c.recent->0)
            &&& lost && !follows && c.has_home && !(c.recent is Some && c.recent_visible)
                && c.nearest_visible is Some ==> r == FocusAfter::Raise(c.nearest_visible->0)
            &&& lost && !follows && (!c.has_home || (!(c.recent is Some && c.recent_visible)
                && c.nearest_visible is None)) ==> r is Clear
        }),
{
}

/// How many of the first windows of a history stay when one closes.
pub open spec fn staying(history: Seq<u64>, closing: u64, n: int) -> nat
    decreases n,
{
    if n <= 0 {
        0
    } else {
        staying(history, closing, n - 1) + (if history[n - 1] != closing {
            1nat
        } else {
            0
        })
    }
}

proof fn lemma_staying_prefix(a: Seq<u64>, b: Seq<u64>, closing: u64, n: int)
    requires
        n <= a.len(),
        n <= b.len(),
        forall|j: int| 0 <= j < n ==> a[j] == b[j],
    ensures
        staying(a, closing, n) == staying(b, closing, n),
    decreases n,
{
    if n > 0 {
        lemma_staying_prefix(a, b, closing, n - 1);
    }
}

/// Windows that stay keep their order in the history.
pub proof fn lemma_history_keeps_its_order(history: Seq<u64>, closing: u64, i: int)
    ensures
        ({
            let (kept, k) = (
                xdg_shell::without(history, closing),
                staying(history, closing, i) as int,
            );
            &&& kept.len() == staying(history, closing, history.len() as int)
            &&& 0 <= i < history.len() && history[i] != closing ==> k < kept.len() && kept[k]
                == history[i]
        }),
    decreases history.len(),
{
    if history.len() > 0 {
        let front = history.drop_last();
        lemma_history_keeps_its_order(front, closing, i);
        lemma_staying_prefix(front, history, closing, front.len() as int);
        if 0 <= i < front.len() {
            lemma_staying_prefix(front, history, closing, i);
        }
    }
}

/// An index for cycling is kept as long as it points into the history, moves to
/// its last window where it does not, and ends with the history.
pub proof fn lemma_cycling_goes_on(i: usize, len: nat)
    ensures
        xdg_shell::cycle_after(None, len) is None,
        xdg_shell::cycle_after(Some(i), 0) is None,
        i < len ==> xdg_shell::cycle_after(Some(i), len) == Some(i as int),
        0 < len <= i ==> xdg_shell::cycle_after(Some(i), len) == Some(len - 1),
{
}

// ── Popups and layers ────────────────────────────────────────────────

/// Moving a rectangle keeps its size and changes its place by just that much,
/// as far as coordinates go.
pub proof fn lemma_moved_rectangle(r: Rect, dx: int, dy: int)
    ensures
        xdg_shell::moved_by(r, dx, dy).size == r.size,
        i32::MIN <= r.loc.x + dx <= i32::MAX ==> xdg_shell::moved_by(r, dx, dy).loc.x == r.loc.x
            + dx,
        i32::MIN <= r.loc.y + dy <= i32::MAX ==> xdg_shell::moved_by(r, dx, dy).loc.y == r.loc.y
            + dy,
        xdg_shell::moved_by(r, 0, 0) == r,
{
}

/// A grab is clobbered if and only if there is one, and it is neither the one of
/// the request nor the one of the parent.
pub proof fn lemma_what_is_clobbered(g: LiveGrab)
    ensures
        xdg_shell::clobbers(g) <==> g.is_grabbed && !g.has_serial && !g.has_previous,
{
}

/// A layer that leaves takes nothing else with it: every other one stays, and
/// none of its number is left.
pub proof fn lemma_layers_that_stay(layers: Seq<CanvasLayerOf<Seq<char>>>, id: u64, i: int)
    ensures
        ({
            let kept = layer_shell::without_layer(layers, id);
            &&& forall|k: int| 0 <= k < kept.len() ==> (#[trigger] kept[k]).id != id
            &&& 0 <= i < layers.len() && layers[i].id != id ==> kept.contains(layers[i])
            &&& kept.len() <= layers.len()
            &&& (forall|k: int| 0 <= k < layers.len() ==> (#[trigger] layers[k]).id != id) ==> kept
                == layers
        }),
    decreases layers.len(),
{
    if layers.len() > 0 {
        let front = layers.drop_last();
        lemma_layers_that_stay(front, id, i);
        let before = layer_shell::without_layer(front, id);
        let kept = layer_shell::without_layer(layers, id);
        if 0 <= i < layers.len() && layers[i].id != id {
            if i < front.len() {
                let k = choose|k: int| 0 <= k < before.len() && before[k] == layers[i];
                assert(kept[k] == layers[i]);
            } else {
                assert(kept[before.len() as int] == layers[i]);
            }
        }
        if forall|k: int| 0 <= k < layers.len() ==> (#[trigger] layers[k]).id != id {
            assert forall|k: int| 0 <= k < front.len() implies (#[trigger] front[k]).id != id by {
                assert(layers[k].id != id);
            }
            assert(layers[layers.len() - 1].id != id);
            assert(front.push(layers.last()) == layers);
        }
    }
}

/// The layers of a namespace are counted one by one, wherever they stand.
pub proof fn lemma_layers_are_counted(
    a: Seq<CanvasLayerOf<Seq<char>>>,
    b: Seq<CanvasLayerOf<Seq<char>>>,
    namespace: Seq<char>,
)
    ensures
        layer_shell::count_namespace(a + b, namespace) == layer_shell::count_namespace(a, namespace)
            + layer_shell::count_namespace(b, namespace),
        layer_shell::count_namespace(a, namespace) <= a.len(),
        (forall|k: int| 0 <= k < a.len() ==> (#[trigger] a[k]).namespace == namespace)
            ==> layer_shell::count_namespace(a, namespace) == a.len(),
        (forall|k: int| 0 <= k < a.len() ==> (#[trigger] a[k]).namespace != namespace)
            ==> layer_shell::count_namespace(a, namespace) == 0,
    decreases b.len(), a.len(),
{
    if b.len() > 0 {
        assert((a + b).drop_last() == a + b.drop_last());
        lemma_layers_are_counted(a, b.drop_last(), namespace);
    } else {
        assert(a + b == a);
        if a.len() > 0 {
            let front = a.drop_last();
            lemma_layers_are_counted(front, b, namespace);
            assert(a[a.len() - 1] == a.last());
            assert forall|k: int| 0 <= k < front.len() implies front[k] == a[k] by {}
        }
    }
}

// ── Requests ─────────────────────────────────────────────────────────

/// The cursor of a resize points to the sides that are dragged.
pub proof fn lemma_resize_cursor(e: ResizeEdge, r: xdg_shell::CursorIcon)
    requires
        call_ensures(xdg_shell::resize_cursor, (e,), r),
    ensures
        (r is NResize || r is NwResize || r is NeResize) <==> (e is Top || e is TopLeft
            || e is TopRight),
        (r is SResize || r is SwResize || r is SeResize) <==> (e is Bottom || e is BottomLeft
            || e is BottomRight),
        (r is WResize || r is NwResize || r is SwResize) <==> (e is Left || e is TopLeft
            || e is BottomLeft),
        (r is EResize || r is NeResize || r is SeResize) <==> (e is Right || e is TopRight
            || e is BottomRight),
        r is Default <==> e is Nothing,
{
}

} // verus!
