//! What a surface commit decides: its steps, the opaque corners of client-drawn
//! frames, the decoration and placement of a new window, and when a window that
//! grew is placed anew.
use vstd::prelude::*;

use crate::canvas;
use crate::canvas::{clamp_to_output, rule_to_internal, rule_to_screen_top_left};
use crate::config::decoration;
use crate::config::decoration::DecorationMode;
use crate::config::numbers;
use crate::config::numbers::Real;
use crate::config::settings::WindowPlacement;
use crate::config::window_rules::{effective_decoration_mode, AppliedWindowRule};
use crate::geometry;
use crate::geometry::{halve, hold, Point, Rect, Size};

verus! {

// ── Opaque corners ───────────────────────────────────────────────────

/// Whether a rectangle of a region adds to it or takes from it.
#[derive(Clone, Copy, Debug, PartialEq, Eq, Structural)]
pub enum RectangleKind {
    Add,
    Subtract,
}

/// Left, top, right and bottom of a rectangle.
pub open spec fn edges_of(r: Rect) -> (int, int, int, int) {
    (r.loc.x as int, r.loc.y as int, r.loc.x + r.size.w, r.loc.y + r.size.h)
}

/// The smallest box around two.
pub open spec fn merged(a: (int, int, int, int), b: (int, int, int, int)) -> (int, int, int, int) {
    (
        geometry::smaller(geometry::smaller(a.0, a.2), geometry::smaller(b.0, b.2)),
        geometry::smaller(geometry::smaller(a.1, a.3), geometry::smaller(b.1, b.3)),
        geometry::larger(geometry::larger(a.0, a.2), geometry::larger(b.0, b.2)),
        geometry::larger(geometry::larger(a.1, a.3), geometry::larger(b.1, b.3)),
    )
}

/// The box around what is added to a region.
pub open spec fn region_bounds(rects: Seq<(RectangleKind, Rect)>) -> Option<(int, int, int, int)>
    decreases rects.len(),
{
    if rects.len() == 0 {
        None
    } else {
        let before = region_bounds(rects.drop_last());
        let (kind, r) = rects.last();
        match kind {
            RectangleKind::Subtract => before,
            RectangleKind::Add => match before {
                Some(b) => Some(merged(b, edges_of(r))),
                None => Some(edges_of(r)),
            },
        }
    }
}

/// A square at a corner.
pub open spec fn square(x: int, y: int, side: int) -> Rect {
    Rect {
        loc: Point { x: geometry::held(x) as i32, y: geometry::held(y) as i32 },
        size: Size { w: geometry::held(side) as i32, h: geometry::held(side) as i32 },
    }
}

/// The corners that are taken from an opaque region: squares a little larger
/// than the corner radius, where the region has room for them.
pub open spec fn carved(rects: Seq<(RectangleKind, Rect)>, corner_radius: int) -> Seq<Rect> {
    let r = corner_radius + 2;
    match region_bounds(rects) {
        Some((left, top, right, bottom)) => if right - left > 2 * r && bottom - top > 2 * r {
            seq![
                square(left, top, r),
                square(right - r, top, r),
                square(right - r, bottom - r, r),
                square(left, bottom - r, r),
            ]
        } else {
            Seq::empty()
        },
        None => Seq::empty(),
    }
}

/// Left, top, right and bottom of a box.
#[derive(Clone, Copy, Debug, PartialEq, Eq, Structural)]
struct Bounds {
    left: i64,
    top: i64,
    right: i64,
    bottom: i64,
}

spec fn bounds_model(b: Bounds) -> (int, int, int, int) {
    (b.left as int, b.top as int, b.right as int, b.bottom as int)
}

spec fn bounds_small(b: Bounds) -> bool {
    -4_294_967_296 <= b.left <= 4_294_967_296 && -4_294_967_296 <= b.top <= 4_294_967_296
        && -4_294_967_296 <= b.right <= 4_294_967_296 && -4_294_967_296 <= b.bottom
        <= 4_294_967_296
}

fn lesser(a: i64, b: i64) -> (r: i64)
    ensures
        r == geometry::smaller(a as int, b as int),
{
    if a <= b {
        a
    } else {
        b
    }
}

fn greater(a: i64, b: i64) -> (r: i64)
    ensures
        r == geometry::larger(a as int, b as int),
{
    if a >= b {
        a
    } else {
        b
    }
}

fn rect_bounds(r: Rect) -> (b: Bounds)
    ensures
        bounds_model(b) == edges_of(r),
        bounds_small(b),
{
    Bounds {
        left: r.loc.x as i64,
        top: r.loc.y as i64,
        right: r.loc.x as i64 + r.size.w as i64,
        bottom: r.loc.y as i64 + r.size.h as i64,
    }
}

fn merge_bounds(a: Bounds, b: Bounds) -> (r: Bounds)
    requires
        bounds_small(a),
        bounds_small(b),
    ensures
        bounds_model(r) == merged(bounds_model(a), bounds_model(b)),
        bounds_small(r),
{
    Bounds {
        left: lesser(lesser(a.left, a.right), lesser(b.left, b.right)),
        top: lesser(lesser(a.top, a.bottom), lesser(b.top, b.bottom)),
        right: greater(greater(a.left, a.right), greater(b.left, b.right)),
        bottom: greater(greater(a.top, a.bottom), greater(b.top, b.bottom)),
    }
}

fn find_bounds(rects: &Vec<(RectangleKind, Rect)>) -> (r: Option<Bounds>)
    ensures
        match r {
            Some(b) => region_bounds(rects@) == Some(bounds_model(b)) && bounds_small(b),
            None => region_bounds(rects@) is None,
        },
{
    let n: usize = rects.len();
    let mut out: Option<Bounds> = None;
    let mut i: usize = 0;
    while i < n
        invariant
            i <= n,
            n == rects@.len(),
            match out {
                Some(b) => region_bounds(rects@.take(i as int)) == Some(bounds_model(b))
                    && bounds_small(b),
                None => region_bounds(rects@.take(i as int)) is None,
            },
        decreases n - i,
    {
        proof {
            assert(rects@.take(i + 1).drop_last() =~= rects@.take(i as int));
        }
        let (kind, rect): (RectangleKind, Rect) = rects[i];
        match kind {
            RectangleKind::Subtract => {},
            RectangleKind::Add => {
                let b: Bounds = rect_bounds(rect);
                out = match out {
                    Some(a) => Some(merge_bounds(a, b)),
                    None => Some(b),
                };
            },
        }
        i = i + 1;
    }
    proof {
        assert(rects@.take(n as int) =~= rects@);
    }
    out
}

fn make_square(x: i64, y: i64, side: i64) -> (r: Rect)
    ensures
        r == square(x as int, y as int, side as int),
{
    Rect { loc: Point { x: hold(x), y: hold(y) }, size: Size { w: hold(side), h: hold(side) } }
}

/// The corners to take from the opaque region of a client-drawn frame, so that
/// the background shows through: some apps declare the whole rectangle opaque
/// while they draw transparent corners.
pub fn corner_carve(rects: &Vec<(RectangleKind, Rect)>, corner_radius: i32) -> (out: Vec<Rect>)
    ensures
        out@ == carved(rects@, corner_radius as int),
{
    let mut out: Vec<Rect> = Vec::new();
    if let Some(b) = find_bounds(rects) {
        let r: i64 = corner_radius as i64 + 2;
        if b.right - b.left > 2 * r && b.bottom - b.top > 2 * r {
            out.push(make_square(b.left, b.top, r));
            out.push(make_square(b.right - r, b.top, r));
            out.push(make_square(b.right - r, b.bottom - r, r));
            out.push(make_square(b.left, b.bottom - r, r));
        }
    }
    out
}

/// Are the corners of a surface carved? Not of one with a server-drawn frame,
/// nor where the frame mode promises to leave the window as it is.
pub fn carves_corners(
    has_decoration: bool,
    rule: Option<DecorationMode>,
    default_mode: DecorationMode,
    is_toplevel: bool,
) -> (r: bool)
    ensures
        r == (!has_decoration && is_toplevel && !(decoration::or_else(rule, default_mode) is Bare)),
{
    let bare: bool = match effective_decoration_mode(rule, default_mode) {
        DecorationMode::Bare => true,
        _ => false,
    };
    !has_decoration && is_toplevel && !bare
}

/// The carved corners lie within the region and do not meet.
pub proof fn lemma_carved_corners_fit(
    left: int,
    top: int,
    right: int,
    bottom: int,
    corner_radius: int,
)
    requires
        corner_radius >= 0,
        right - left > 2 * (corner_radius + 2),
        bottom - top > 2 * (corner_radius + 2),
    ensures
        ({
            let r = corner_radius + 2;
            left + r < right - r && top + r < bottom - r && left <= right - r && top <= bottom - r
        }),
{
}

// ── Decoration ───────────────────────────────────────────────────────

/// Who draws the frame, as the protocol has it.
#[derive(Clone, Copy, Debug, PartialEq, Eq, Structural)]
pub enum WireMode {
    ClientSide,
    ServerSide,
}

/// The protocol's word for a mode: everything but client-drawn frames is the
/// server's business.
pub open spec fn wire_of(mode: DecorationMode) -> WireMode {
    match mode {
        DecorationMode::Client => WireMode::ClientSide,
        _ => WireMode::ServerSide,
    }
}

/// The protocol's word for a mode.
pub fn decoration_mode_to_wire(mode: DecorationMode) -> (r: WireMode)
    ensures
        r == wire_of(mode),
{
    match mode {
        DecorationMode::Client => WireMode::ClientSide,
        _ => WireMode::ServerSide,
    }
}

fn same_wire(a: WireMode, b: WireMode) -> (r: bool)
    ensures
        r == (a == b),
{
    match (a, b) {
        (WireMode::ClientSide, WireMode::ClientSide) => true,
        (WireMode::ServerSide, WireMode::ServerSide) => true,
        _ => false,
    }
}

/// The decoration of a new window: an explicit rule wins; else what the client
/// negotiated; else the default. A client that accepted what was advertised
/// keeps the full mode, which the protocol's word would lose.
pub open spec fn new_window_mode(
    rule: Option<DecorationMode>,
    negotiated: Option<WireMode>,
    default_mode: DecorationMode,
) -> DecorationMode {
    match rule {
        Some(m) => m,
        None => match negotiated {
            None => default_mode,
            Some(w) => if w == wire_of(default_mode) {
                default_mode
            } else if w is ServerSide {
                DecorationMode::Server
            } else {
                DecorationMode::Client
            },
        },
    }
}

/// The decoration of a new window.
pub fn negotiated_mode(
    rule: Option<DecorationMode>,
    negotiated: Option<WireMode>,
    default_mode: DecorationMode,
) -> (r: DecorationMode)
    ensures
        r == new_window_mode(rule, negotiated, default_mode),
{
    match rule {
        Some(m) => m,
        None => match negotiated {
            None => default_mode,
            Some(w) => if same_wire(w, decoration_mode_to_wire(default_mode)) {
                default_mode
            } else {
                match w {
                    WireMode::ServerSide => DecorationMode::Server,
                    WireMode::ClientSide => DecorationMode::Client,
                }
            },
        },
    }
}

/// Without a rule, the mode speaks the word that the client negotiated.
pub proof fn lemma_negotiation_is_honored(negotiated: WireMode, default_mode: DecorationMode)
    ensures
        wire_of(new_window_mode(None, Some(negotiated), default_mode)) == negotiated,
{
}

// ── The first commit of a window ─────────────────────────────────────

/// What a rule says about a new window.
#[derive(Clone, Copy, Debug, PartialEq, Eq)]
pub struct RuleEffects {
    pub decoration: Option<DecorationMode>,
    pub size: Option<(i32, i32)>,
    pub position: Option<(i32, i32)>,
    pub widget: bool,
    pub pinned_to_screen: bool,
    pub fullscreen: Option<bool>,
}

/// What an applied rule says about a new window.
pub fn rule_effects(rule: &AppliedWindowRule) -> (r: RuleEffects)
    ensures
        r == (RuleEffects {
            decoration: rule.decoration,
            size: rule.size,
            position: rule.position,
            widget: rule.widget,
            pinned_to_screen: rule.pinned_to_screen,
            fullscreen: rule.fullscreen,
        }),
{
    RuleEffects {
        decoration: rule.decoration,
        size: rule.size,
        position: rule.position,
        widget: rule.widget,
        pinned_to_screen: rule.pinned_to_screen,
        fullscreen: rule.fullscreen,
    }
}

/// What still has to happen to a surface.
#[derive(Clone, Copy, Debug, PartialEq, Eq, Structural)]
pub struct Pending {
    /// It has not been placed yet.
    pub center: bool,
    /// A rule's size was sent, and its commit is awaited.
    pub size: bool,
    /// It asked for fullscreen.
    pub fullscreen: bool,
    /// It asked to be fitted.
    pub fit: bool,
}

/// What a commit of a window that has not been placed yet depends on.
#[derive(Clone, Copy, Debug, PartialEq, Eq)]
pub struct FirstCommit {
    pub size: Size,
    pub is_fullscreen: bool,
    pub is_fit: bool,
    pub has_toplevel: bool,
    /// The client's pending state already has a size.
    pub already_sized: bool,
    /// A rule's side effects have run on an earlier commit.
    pub already_applied: bool,
    /// A title bar exists already.
    pub has_decoration: bool,
    pub rule: Option<RuleEffects>,
    pub negotiated: Option<WireMode>,
    pub default_mode: DecorationMode,
    pub placement: WindowPlacement,
    pub reset_zoom: bool,
    pub zoom: Real,
    /// Size of the output that a pinned window goes to.
    pub pin_output: Option<Size>,
    /// Place and size of the parent window.
    pub parent: Option<(Point, Size)>,
    /// Behind a fullscreen window, if one is in the way.
    pub background: Option<Point>,
    pub at_cursor: Option<Point>,
    pub automatic: Option<Point>,
    pub at_center: Point,
    pub pending: Pending,
}

/// Where a new window goes.
#[derive(Clone, Copy, Debug, PartialEq, Eq, Structural)]
pub enum Placed {
    /// It stays where it is.
    Stay,
    /// It is configured with a rule's size first, and placed on the commit that
    /// follows.
    ForceSize(Size),
    /// It is pinned to its output.
    Pin { screen_pos: Point, activate: bool },
    /// It is mapped on the canvas, with a cascade away from windows that are
    /// there already, or exactly.
    OnCanvas { pos: Point, cascade: bool, activate: bool, by_cursor: bool, in_background: bool },
}

/// What happens to the tiled hint: with it toolkits drop their own shadows and
/// corners.
#[derive(Clone, Copy, Debug, PartialEq, Eq, Structural)]
pub enum Tiled {
    /// There is no client to tell.
    Silent,
    Unset,
    /// Set, together with a size where none is pending.
    Hint(Option<Size>),
}

/// How the view follows a new window.
#[derive(Clone, Copy, Debug, PartialEq, Eq, Structural)]
pub enum Follow {
    Nothing,
    Raise,
    Navigate { reset_zoom: bool },
}

/// What a deferred request comes to.
#[derive(Clone, Copy, Debug, PartialEq, Eq, Structural)]
pub enum Deferred {
    Nothing,
    Fullscreen,
    Fit,
}

/// What a commit of a window that has not been placed yet does.
#[derive(Clone, Copy, Debug, PartialEq, Eq, Structural)]
pub struct FirstCommitPlan {
    /// Keep the size as the one to restore, if none is kept yet.
    pub keep_restore_size: bool,
    pub mode: DecorationMode,
    pub placed: Placed,
    /// Overwrite the negotiated decoration.
    pub wire: Option<WireMode>,
    pub tiled: Tiled,
    /// The server draws something for this window.
    pub pending_ssd: bool,
    /// Put widgets below windows, and focus what was focused before.
    pub widget_effects: bool,
    pub create_decoration: bool,
    pub follow: Follow,
    /// The window has arrived: clear the loading cursor and what was kept for
    /// its placement, and settle its snap rectangle.
    pub arrived: bool,
    pub deferred: Deferred,
    pub pending: Pending,
}

/// Has the window a size?
pub open spec fn sized(f: FirstCommit) -> bool {
    f.size.w > 0 && f.size.h > 0
}

/// Is a rule's size due? Once: the user can still resize afterwards.
pub open spec fn size_due(f: FirstCommit) -> bool {
    f.rule matches Some(r) && r.size is Some && !f.pending.size
}

/// Is the window a widget?
pub open spec fn is_widget(f: FirstCommit) -> bool {
    f.rule matches Some(r) && r.widget
}

/// The decoration of the window.
pub open spec fn mode_of(f: FirstCommit) -> DecorationMode {
    new_window_mode(
        match f.rule {
            Some(r) => r.decoration,
            None => None,
        },
        if f.has_toplevel {
            f.negotiated
        } else {
            None
        },
        f.default_mode,
    )
}

/// Where a rule pins the window: from the output's center, moved so that it is
/// fully visible.
pub open spec fn pin_corner(f: FirstCommit, output: Size) -> Point {
    let (x, y) = match f.rule {
        Some(r) => match r.position {
            Some(p) => p,
            None => (0i32, 0i32),
        },
        None => (0i32, 0i32),
    };
    let (sx, sy) = canvas::screen_corner(x as int, y as int, f.size, output);
    Point {
        x: geometry::held(
            canvas::corner_on_output(geometry::held(sx), f.size.w as int, output.w as int),
        ) as i32,
        y: geometry::held(
            canvas::corner_on_output(geometry::held(sy), f.size.h as int, output.h as int),
        ) as i32,
    }
}

/// A point from two numbers, each held to the range of coordinates.
pub open spec fn held_point(x: int, y: int) -> Point {
    Point { x: geometry::held(x) as i32, y: geometry::held(y) as i32 }
}

/// Centered on the parent.
pub open spec fn over_parent(parent: (Point, Size), size: Size) -> Point {
    held_point(
        parent.0.x + geometry::half(parent.1.w as int) - geometry::half(size.w as int),
        parent.0.y + geometry::half(parent.1.h as int) - geometry::half(size.h as int),
    )
}

/// Where a window goes on the canvas: where its rule says, over its parent,
/// behind a fullscreen window, and then as configured.
pub open spec fn canvas_place(f: FirstCommit) -> Placed {
    let activate = !is_widget(f);
    if f.rule matches Some(r) && r.position is Some {
        let (x, y) = f.rule->0.position->0;
        let (cx, cy) = canvas::internal_corner(x as int, y as int, f.size);
        Placed::OnCanvas {
            pos: held_point(cx, cy),
            cascade: false,
            activate,
            by_cursor: false,
            in_background: false,
        }
    } else if f.parent is Some {
        Placed::OnCanvas {
            pos: over_parent(f.parent->0, f.size),
            cascade: false,
            activate,
            by_cursor: false,
            in_background: false,
        }
    } else if f.background is Some {
        Placed::OnCanvas {
            pos: f.background->0,
            cascade: false,
            activate: false,
            by_cursor: false,
            in_background: true,
        }
    } else if f.placement is Cursor && f.at_cursor is Some {
        Placed::OnCanvas {
            pos: f.at_cursor->0,
            cascade: true,
            activate,
            by_cursor: true,
            in_background: false,
        }
    } else if f.placement is Auto && f.automatic is Some {
        Placed::OnCanvas {
            pos: f.automatic->0,
            cascade: true,
            activate,
            by_cursor: false,
            in_background: false,
        }
    } else {
        Placed::OnCanvas {
            pos: f.at_center,
            cascade: true,
            activate,
            by_cursor: false,
            in_background: false,
        }
    }
}

/// Is the window pinned, and to an output of which size?
pub open spec fn pins_to(f: FirstCommit) -> Option<Size> {
    if f.rule matches Some(r) && r.pinned_to_screen && sized(f) && !f.is_fullscreen {
        f.pin_output
    } else {
        None
    }
}

/// Where the window goes. A rule's size comes first; pinned windows live on
/// their output; fullscreen and fitted windows are where they belong already.
pub open spec fn placed_by(f: FirstCommit) -> Placed {
    if size_due(f) {
        if f.has_toplevel {
            let (w, h) = f.rule->0.size->0;
            Placed::ForceSize(Size { w, h })
        } else {
            Placed::Stay
        }
    } else if pins_to(f) is Some {
        Placed::Pin { screen_pos: pin_corner(f, pins_to(f)->0), activate: !is_widget(f) }
    } else if sized(f) && !f.is_fullscreen && !f.is_fit {
        canvas_place(f)
    } else {
        Placed::Stay
    }
}

/// Is the window done being placed?
pub open spec fn arrives(f: FirstCommit) -> bool {
    sized(f) && !(placed_by(f) is ForceSize)
}

/// The bits of the zoom below which the view is zoomed out, 1.0 - 1e-9.
pub const FULL_ZOOM: u64 = 0x3fef_ffff_ff76_8fa1;

/// Is fullscreen still to come?
pub open spec fn fullscreen_due(f: FirstCommit) -> bool {
    f.pending.fullscreen || (f.rule matches Some(r) && r.fullscreen == Some(true))
}

/// How the view follows: not for widgets, fullscreen or background windows, nor
/// where a deferred request will move it anyway. At the cursor the view stays
/// put, unless it is zoomed out and is to be reset.
pub open spec fn follows(f: FirstCommit, pinned: bool) -> Follow {
    let p = placed_by(f);
    let by_cursor = p matches Placed::OnCanvas { by_cursor, .. } && by_cursor;
    let in_background = p matches Placed::OnCanvas { in_background, .. } && in_background;
    if !arrives(f) || is_widget(f) || f.is_fullscreen || in_background || f.pending.fit
        || fullscreen_due(f) {
        Follow::Nothing
    } else if pinned || (by_cursor && !(f.reset_zoom && numbers::less(
        f.zoom,
        Real { bits: FULL_ZOOM },
    ))) {
        Follow::Raise
    } else {
        Follow::Navigate { reset_zoom: f.reset_zoom }
    }
}

/// What becomes of the tiled hint: widgets and bare windows go without. A
/// pending size is left alone.
pub open spec fn tiled_of(f: FirstCommit) -> Tiled {
    if !f.has_toplevel {
        Tiled::Silent
    } else if is_widget(f) || mode_of(f) is Bare {
        Tiled::Unset
    } else if f.already_sized || placed_by(f) is ForceSize {
        Tiled::Hint(None)
    } else {
        Tiled::Hint(Some(f.size))
    }
}

/// What is still pending afterwards. A forced size or a missing one leaves the
/// window to be placed.
pub open spec fn pending_after(f: FirstCommit) -> Pending {
    if arrives(f) {
        Pending {
            center: false,
            size: false,
            fullscreen: false,
            fit: fullscreen_due(f) && f.pending.fit,
        }
    } else {
        Pending {
            center: true,
            size: f.pending.size || placed_by(f) is ForceSize,
            fullscreen: f.pending.fullscreen,
            fit: f.pending.fit,
        }
    }
}

/// What a commit of a window that has not been placed yet does. `was_pinned`
/// tells whether the window is pinned already.
pub open spec fn plan_of(f: FirstCommit, was_pinned: bool) -> FirstCommitPlan {
    let p = placed_by(f);
    FirstCommitPlan {
        keep_restore_size: sized(f) && !f.is_fit && !f.is_fullscreen,
        mode: mode_of(f),
        placed: p,
        wire: if f.has_toplevel && (f.rule matches Some(r) && r.decoration is Some) {
            Some(wire_of(mode_of(f)))
        } else {
            None
        },
        tiled: tiled_of(f),
        pending_ssd: !(mode_of(f) is Client),
        widget_effects: is_widget(f) && !f.already_applied,
        create_decoration: arrives(f) && mode_of(f) is Server && !f.has_decoration,
        follow: follows(f, was_pinned || p is Pin),
        arrived: arrives(f),
        deferred: if !arrives(f) {
            Deferred::Nothing
        } else if fullscreen_due(f) {
            Deferred::Fullscreen
        } else if f.pending.fit {
            Deferred::Fit
        } else {
            Deferred::Nothing
        },
        pending: pending_after(f),
    }
}

impl FirstCommit {
    fn is_sized(&self) -> (r: bool)
        ensures
            r == sized(*self),
    {
        self.size.w > 0 && self.size.h > 0
    }

    fn widget(&self) -> (r: bool)
        ensures
            r == is_widget(*self),
    {
        match self.rule {
            Some(r) => r.widget,
            None => false,
        }
    }

    fn mode(&self) -> (r: DecorationMode)
        ensures
            r == mode_of(*self),
    {
        let rule: Option<DecorationMode> = match self.rule {
            Some(r) => r.decoration,
            None => None,
        };
        let negotiated: Option<WireMode> = if self.has_toplevel {
            self.negotiated
        } else {
            None
        };
        negotiated_mode(rule, negotiated, self.default_mode)
    }

    fn pin(&self, output: Size) -> (r: Point)
        ensures
            r == pin_corner(*self, output),
    {
        let (x, y): (i32, i32) = match self.rule {
            Some(r) => match r.position {
                Some(p) => p,
                None => (0, 0),
            },
            None => (0, 0),
        };
        let corner: Point = rule_to_screen_top_left(x, y, self.size, output);
        clamp_to_output(corner, self.size, output)
    }

    fn place_on_canvas(&self) -> (r: Placed)
        ensures
            r == canvas_place(*self),
    {
        let activate: bool = !self.widget();
        if let Some(rule) = self.rule {
            if let Some((x, y)) = rule.position {
                let pos: Point = rule_to_internal(x, y, self.size);
                return Placed::OnCanvas {
                    pos,
                    cascade: false,
                    activate,
                    by_cursor: false,
                    in_background: false,
                };
            }
        }
        if let Some((loc, size)) = self.parent {
            let x: i64 = loc.x as i64 + halve(size.w) as i64 - halve(self.size.w) as i64;
            let y: i64 = loc.y as i64 + halve(size.h) as i64 - halve(self.size.h) as i64;
            return Placed::OnCanvas {
                pos: Point { x: hold(x), y: hold(y) },
                cascade: false,
                activate,
                by_cursor: false,
                in_background: false,
            };
        }
        if let Some(pos) = self.background {
            return Placed::OnCanvas {
                pos,
                cascade: false,
                activate: false,
                by_cursor: false,
                in_background: true,
            };
        }
        match self.placement {
            WindowPlacement::Cursor => {
                if let Some(pos) = self.at_cursor {
                    return Placed::OnCanvas {
                        pos,
                        cascade: true,
                        activate,
                        by_cursor: true,
                        in_background: false,
                    };
                }
            },
            WindowPlacement::Auto => {
                if let Some(pos) = self.automatic {
                    return Placed::OnCanvas {
                        pos,
                        cascade: true,
                        activate,
                        by_cursor: false,
                        in_background: false,
                    };
                }
            },
            WindowPlacement::Center => {},
        }
        Placed::OnCanvas {
            pos: self.at_center,
            cascade: true,
            activate,
            by_cursor: false,
            in_background: false,
        }
    }

    fn pin_target(&self) -> (r: Option<Size>)
        ensures
            r == pins_to(*self),
    {
        let pinned: bool = match self.rule {
            Some(r) => r.pinned_to_screen,
            None => false,
        };
        if pinned && self.is_sized() && !self.is_fullscreen {
            self.pin_output
        } else {
            None
        }
    }

    /// The size that a rule forces, if that is due.
    fn due_size(&self) -> (r: Option<Size>)
        ensures
            r is Some == size_due(*self),
            r matches Some(s) ==> (s.w, s.h) == self.rule->0.size->0,
    {
        if self.pending.size {
            return None;
        }
        match self.rule {
            Some(r) => match r.size {
                Some((w, h)) => Some(Size { w, h }),
                None => None,
            },
            None => None,
        }
    }

    fn place(&self) -> (r: Placed)
        ensures
            r == placed_by(*self),
    {
        if let Some(size) = self.due_size() {
            return if self.has_toplevel {
                Placed::ForceSize(size)
            } else {
                Placed::Stay
            };
        }
        if let Some(output) = self.pin_target() {
            return Placed::Pin { screen_pos: self.pin(output), activate: !self.widget() };
        }
        if self.is_sized() && !self.is_fullscreen && !self.is_fit {
            self.place_on_canvas()
        } else {
            Placed::Stay
        }
    }

    fn wants_fullscreen(&self) -> (r: bool)
        ensures
            r == fullscreen_due(*self),
    {
        let by_rule: bool = match self.rule {
            Some(r) => match r.fullscreen {
                Some(b) => b,
                None => false,
            },
            None => false,
        };
        self.pending.fullscreen || by_rule
    }

    fn follow(&self, p: Placed, arrived: bool, pinned: bool) -> (r: Follow)
        requires
            p == placed_by(*self),
            arrived == arrives(*self),
        ensures
            r == follows(*self, pinned),
    {
        let full: Real = Real { bits: FULL_ZOOM };
        let (by_cursor, in_background): (bool, bool) = match p {
            Placed::OnCanvas { by_cursor, in_background, .. } => (by_cursor, in_background),
            _ => (false, false),
        };
        if !arrived || self.widget() || self.is_fullscreen || in_background || self.pending.fit
            || self.wants_fullscreen() {
            Follow::Nothing
        } else if pinned || (by_cursor && !(self.reset_zoom && self.zoom.less(&full))) {
            Follow::Raise
        } else {
            Follow::Navigate { reset_zoom: self.reset_zoom }
        }
    }

    fn tiled(&self, mode: DecorationMode, forced: bool) -> (r: Tiled)
        requires
            mode == mode_of(*self),
            forced == placed_by(*self) is ForceSize,
        ensures
            r == tiled_of(*self),
    {
        let bare: bool = match mode {
            DecorationMode::Bare => true,
            _ => false,
        };
        if !self.has_toplevel {
            Tiled::Silent
        } else if self.widget() || bare {
            Tiled::Unset
        } else if self.already_sized || forced {
            Tiled::Hint(None)
        } else {
            Tiled::Hint(Some(self.size))
        }
    }

    /// What a commit of a window that has not been placed yet does.
    pub fn plan(&self, was_pinned: bool) -> (r: FirstCommitPlan)
        ensures
            r == plan_of(*self, was_pinned),
    {
        let mode: DecorationMode = self.mode();
        let placed: Placed = self.place();
        let forced: bool = match placed {
            Placed::ForceSize(_) => true,
            _ => false,
        };
        let pins: bool = match placed {
            Placed::Pin { .. } => true,
            _ => false,
        };
        let arrived: bool = self.is_sized() && !forced;
        let explicit: bool = match self.rule {
            Some(r) => r.decoration.is_some(),
            None => false,
        };
        let is_client: bool = match mode {
            DecorationMode::Client => true,
            _ => false,
        };
        let is_server: bool = match mode {
            DecorationMode::Server => true,
            _ => false,
        };
        let fullscreen: bool = self.wants_fullscreen();
        FirstCommitPlan {
            keep_restore_size: self.is_sized() && !self.is_fit && !self.is_fullscreen,
            mode,
            placed,
            wire: if self.has_toplevel && explicit {
                Some(decoration_mode_to_wire(mode))
            } else {
                None
            },
            tiled: self.tiled(mode, forced),
            pending_ssd: !is_client,
            widget_effects: self.widget() && !self.already_applied,
            create_decoration: arrived && is_server && !self.has_decoration,
            follow: self.follow(placed, arrived, was_pinned || pins),
            arrived,
            deferred: if !arrived {
                Deferred::Nothing
            } else if fullscreen {
                Deferred::Fullscreen
            } else if self.pending.fit {
                Deferred::Fit
            } else {
                Deferred::Nothing
            },
            pending: if arrived {
                Pending {
                    center: false,
                    size: false,
                    fullscreen: false,
                    fit: fullscreen && self.pending.fit,
                }
            } else {
                Pending {
                    center: true,
                    size: self.pending.size || forced,
                    fullscreen: self.pending.fullscreen,
                    fit: self.pending.fit,
                }
            },
        }
    }
}

/// A widget is never activated and never moves the view; nothing that is placed
/// behind a fullscreen window is either.
pub proof fn lemma_widgets_keep_quiet(f: FirstCommit, pinned: bool)
    ensures
        is_widget(f) ==> plan_of(f, pinned).follow is Nothing,
        is_widget(f) ==> (plan_of(f, pinned).placed matches Placed::OnCanvas { activate, .. }
            ==> !activate),
        is_widget(f) ==> (plan_of(f, pinned).placed matches Placed::Pin { activate, .. }
            ==> !activate),
        plan_of(f, pinned).placed matches Placed::OnCanvas { activate, in_background, .. }
            ==> in_background ==> !activate && plan_of(f, pinned).follow is Nothing,
{
}

/// A window without a size is placed later, and one with a size is placed by
/// the commit after its rule's size was sent at the latest: a size is forced
/// once.
pub proof fn lemma_every_sized_window_arrives(f: FirstCommit, pinned: bool)
    ensures
        !sized(f) ==> !plan_of(f, pinned).arrived && plan_of(f, pinned).pending.center,
        sized(f) && f.pending.size ==> plan_of(f, pinned).arrived,
        sized(f) && !plan_of(f, pinned).arrived ==> plan_of(f, pinned).pending.size
            && plan_of(f, pinned).placed is ForceSize,
        plan_of(f, pinned).arrived == !plan_of(f, pinned).pending.center,
{
}

/// A window that is pinned by a rule and fits its output is fully visible on it.
pub proof fn lemma_pinned_window_is_visible(f: FirstCommit, pinned: bool, output: Size)
    requires
        f.pin_output == Some(output),
        0 <= f.size.w <= output.w,
        0 <= f.size.h <= output.h,
    ensures
        plan_of(f, pinned).placed matches Placed::Pin { screen_pos, .. } ==> 0 <= screen_pos.x
            && screen_pos.x + f.size.w <= output.w && 0 <= screen_pos.y && screen_pos.y + f.size.h
            <= output.h,
{
}

/// A rule's position beats every other way to place a window on the canvas, and
/// fullscreen or fitted windows are not moved.
pub proof fn lemma_rules_place_first(f: FirstCommit, pinned: bool)
    requires
        f.rule is Some,
        f.rule->0.position is Some,
    ensures
        plan_of(f, pinned).placed matches Placed::OnCanvas { pos, cascade, .. } ==> !cascade && ({
            let (x, y) = f.rule->0.position->0;
            let (cx, cy) = canvas::internal_corner(x as int, y as int, f.size);
            pos == held_point(cx, cy)
        }),
        (f.is_fullscreen || f.is_fit) ==> !(plan_of(f, pinned).placed is OnCanvas),
{
}

// ── Later commits ────────────────────────────────────────────────────

/// The commits since the last rendered frame, around the end of the counter.
pub fn count_commit(commits: u64) -> (r: u64)
    ensures
        r == (if commits == u64::MAX {
            0
        } else {
            (commits + 1) as u64
        }),
{
    if commits == u64::MAX {
        0
    } else {
        commits + 1
    }
}

/// Does a commit confirm the session lock? The first of a lock surface does.
pub fn confirms_lock(lock_pending: bool, is_lock_surface: bool) -> (r: bool)
    ensures
        r == (lock_pending && is_lock_surface),
{
    lock_pending && is_lock_surface
}

/// The drag icon's offset with what its surface was moved by.
pub fn move_icon(offset: Point, delta: Option<Point>) -> (r: Point)
    ensures
        match delta {
            Some(d) => r == held_point(offset.x + d.x, offset.y + d.y),
            None => r == offset,
        },
{
    match delta {
        Some(d) => Point {
            x: hold(offset.x as i64 + d.x as i64),
            y: hold(offset.y as i64 + d.y as i64),
        },
        None => offset,
    }
}

/// Is a window due to be centered again after it was unfitted? Only once it has
/// actually changed from its fitted size.
pub fn recenter_due(now: Size, pre_exit_size: Size) -> (r: bool)
    ensures
        r == (now.w > 0 && now.h > 0 && now != pre_exit_size),
{
    now.w > 0 && now.h > 0 && (now.w != pre_exit_size.w || now.h != pre_exit_size.h)
}

/// Where a layer surface on the canvas goes: settled on the first commit with a
/// size, and kept from then on.
pub fn canvas_layer_position(position: Option<Point>, rule: (i32, i32), size: Size) -> (r: Option<
    Point,
>)
    ensures
        match position {
            Some(p) => r == Some(p),
            None => r == (if size.w > 0 && size.h > 0 {
                let (x, y) = canvas::internal_corner(rule.0 as int, rule.1 as int, size);
                Some(held_point(x, y))
            } else {
                None
            }),
        },
{
    match position {
        Some(p) => Some(p),
        None => if size.w > 0 && size.h > 0 {
            Some(rule_to_internal(rule.0, rule.1, size))
        } else {
            None
        },
    }
}

/// What a window that resized itself depends on.
#[derive(Clone, Copy, Debug, PartialEq, Eq)]
pub struct Growth {
    /// No resize grab owns its size.
    pub idle: bool,
    pub is_fullscreen: bool,
    pub is_fit: bool,
    pub is_fill: bool,
    /// Its footprint when it last settled, with one pixel of slack, if known.
    pub settled: Option<(Real, Real)>,
    /// Its footprint now; none for widgets, pinned and fullscreen windows.
    pub footprint: Option<(Real, Real)>,
}

/// Another window beside one that grew.
#[derive(Clone, Copy, Debug, PartialEq, Eq, Structural)]
pub struct Neighbor {
    pub id: u64,
    /// It is snapped to the settled footprint.
    pub is_adjacent: bool,
    /// It overlaps the footprint now.
    pub overlaps: bool,
}

/// Did the footprint grow?
pub open spec fn grew(g: Growth) -> bool {
    g.settled matches Some(s) && g.footprint matches Some(f) && (numbers::less(s.0, f.0)
        || numbers::less(s.1, f.1))
}

/// The first window that is snapped to the settled footprint.
pub open spec fn first_adjacent(neighbors: Seq<Neighbor>) -> Option<u64>
    decreases neighbors.len(),
{
    if neighbors.len() == 0 {
        None
    } else {
        match first_adjacent(neighbors.drop_last()) {
            Some(id) => Some(id),
            None => if neighbors.last().is_adjacent {
                Some(neighbors.last().id)
            } else {
                None
            },
        }
    }
}

/// Does any window overlap the footprint now?
pub open spec fn collides(neighbors: Seq<Neighbor>) -> bool {
    exists|i: int| 0 <= i < neighbors.len() && (#[trigger] neighbors[i]).overlaps
}

/// The window that one which resized itself is placed beside: the first it was
/// snapped to, where it grew over any window. One that was filled, fitted, made
/// fullscreen or resized by a grab stays put, and so does one that was not
/// snapped or grew into free space.
pub fn reflow_anchor(g: &Growth, neighbors: &Vec<Neighbor>) -> (r: Option<u64>)
    ensures
        r == (if g.idle && !g.is_fullscreen && !g.is_fit && !g.is_fill && grew(*g) && collides(
            neighbors@,
        ) {
            first_adjacent(neighbors@)
        } else {
            None
        }),
{
    if !g.idle || g.is_fullscreen || g.is_fit || g.is_fill {
        return None;
    }
    let grown: bool = match (g.settled, g.footprint) {
        (Some((sw, sh)), Some((w, h))) => sw.less(&w) || sh.less(&h),
        _ => false,
    };
    if !grown {
        return None;
    }
    let n: usize = neighbors.len();
    let mut anchor: Option<u64> = None;
    let mut hit: bool = false;
    let mut i: usize = 0;
    while i < n
        invariant
            i <= n,
            n == neighbors@.len(),
            anchor == first_adjacent(neighbors@.take(i as int)),
            hit == collides(neighbors@.take(i as int)),
        decreases n - i,
    {
        let w: Neighbor = neighbors[i];
        proof {
            let some = neighbors@.take(i + 1);
            assert(some.drop_last() =~= neighbors@.take(i as int));
            assert(some.last() == w);
            assert(collides(some) == (collides(neighbors@.take(i as int)) || w.overlaps)) by {
                if collides(neighbors@.take(i as int)) {
                    let k = choose|k: int|
                        0 <= k < i && (#[trigger] neighbors@.take(i as int)[k]).overlaps;
                    assert(some[k].overlaps);
                }
                if w.overlaps {
                    assert(some[i as int].overlaps);
                }
                if collides(some) {
                    let k = choose|k: int| 0 <= k < some.len() && (#[trigger] some[k]).overlaps;
                    if k < i {
                        assert(neighbors@.take(i as int)[k].overlaps);
                    }
                }
            }
        }
        if anchor.is_none() && w.is_adjacent {
            anchor = Some(w.id);
        }
        if w.overlaps {
            hit = true;
        }
        i = i + 1;
    }
    proof {
        assert(neighbors@.take(n as int) =~= neighbors@);
    }
    if hit {
        anchor
    } else {
        None
    }
}

/// What placing a grown window does.
#[derive(Clone, Copy, Debug, PartialEq, Eq, Structural)]
pub enum Reflow {
    /// It has a free place already, or none was found.
    Stay,
    /// It moves, and the view stays.
    Move(Point),
    /// It moves, and the view follows.
    MoveAndFollow(Point),
}

/// The bits of the fraction of a window that counts as all of it, 0.999.
pub const FULLY_VISIBLE: u64 = 0x3fef_f7ce_d916_872b;

/// What placing a grown window does: the view follows only the focused window,
/// and only out of sight. `visible` is the fraction of it in view.
pub fn reflow(place: Option<Point>, now: Option<Point>, focused: bool, visible: &Real) -> (r:
    Reflow)
    ensures
        r == (match place {
            None => Reflow::Stay,
            Some(p) => if now == Some(p) {
                Reflow::Stay
            } else if focused && !numbers::at_least(*visible, Real { bits: FULLY_VISIBLE }) {
                Reflow::MoveAndFollow(p)
            } else {
                Reflow::Move(p)
            },
        }),
{
    let whole: Real = Real { bits: FULLY_VISIBLE };
    match place {
        None => Reflow::Stay,
        Some(p) => {
            let there: bool = match now {
                Some(n) => n.x == p.x && n.y == p.y,
                None => false,
            };
            if there {
                Reflow::Stay
            } else if focused && !visible.at_least(&whole) {
                Reflow::MoveAndFollow(p)
            } else {
                Reflow::Move(p)
            }
        },
    }
}

// ── The commit as a whole ────────────────────────────────────────────

/// What the steps of a commit depend on.
#[derive(Clone, Copy, Debug, PartialEq, Eq, Structural)]
pub struct CommitFacts {
    /// Its opaque region loses its corners.
    pub carves: bool,
    pub is_drag_icon: bool,
    pub lock_pending: bool,
    pub is_lock_surface: bool,
    /// A subsurface that commits with its parent.
    pub is_sync: bool,
    pub has_window: bool,
    /// Its window has not been placed yet.
    pub is_unplaced: bool,
    /// Its window waits to be centered again, and is due.
    pub recenters: bool,
    pub on_canvas_layer: bool,
    pub on_layer: bool,
    /// The initial configure of its layer or toplevel has been sent.
    pub configured: bool,
    /// It is the surface of a toplevel itself.
    pub is_toplevel: bool,
}

/// A step of a commit.
#[derive(Clone, Copy, Debug, PartialEq, Eq, Structural)]
pub enum CommitStep {
    CarveCorners,
    ImportBuffer,
    MoveIcon,
    ConfirmLock,
    WindowCommit,
    PlaceWindow,
    ResizeCommit,
    Recenter,
    Reflow,
    SettleCanvasLayer,
    ArrangeLayers,
    Configure,
    UpdateFocus,
    CommitPopups,
}

/// A step that is taken if it is due.
pub open spec fn due(when: bool, step: CommitStep) -> Seq<CommitStep> {
    if when {
        seq![step]
    } else {
        Seq::empty()
    }
}

/// The steps for the window of a surface.
pub open spec fn window_steps(f: CommitFacts) -> Seq<CommitStep> {
    if f.is_sync || !f.has_window {
        Seq::empty()
    } else {
        seq![CommitStep::WindowCommit] + due(f.is_unplaced, CommitStep::PlaceWindow)
            + seq![CommitStep::ResizeCommit] + due(f.recenters, CommitStep::Recenter)
            + seq![CommitStep::Reflow]
    }
}

/// The steps for a surface as such: a layer, or else a toplevel.
pub open spec fn surface_steps(f: CommitFacts) -> Seq<CommitStep> {
    let configure = due(!f.configured, CommitStep::Configure);
    if f.on_canvas_layer {
        seq![CommitStep::SettleCanvasLayer] + configure + seq![
            CommitStep::UpdateFocus,
            CommitStep::CommitPopups,
        ]
    } else if f.on_layer {
        seq![CommitStep::ArrangeLayers] + configure + seq![
            CommitStep::UpdateFocus,
            CommitStep::CommitPopups,
        ]
    } else {
        seq![CommitStep::CommitPopups] + due(
            f.is_toplevel && !f.configured,
            CommitStep::Configure,
        )
    }
}

/// The steps that every commit begins with.
pub open spec fn head_steps(f: CommitFacts) -> Seq<CommitStep> {
    due(f.carves, CommitStep::CarveCorners) + seq![CommitStep::ImportBuffer] + due(
        f.is_drag_icon,
        CommitStep::MoveIcon,
    )
}

/// The steps of a commit. The one that confirms the session lock goes no
/// further.
pub open spec fn steps_of(f: CommitFacts) -> Seq<CommitStep> {
    if f.lock_pending && f.is_lock_surface {
        head_steps(f) + seq![CommitStep::ConfirmLock]
    } else {
        head_steps(f) + window_steps(f) + surface_steps(f)
    }
}

fn take_if(steps: &mut Vec<CommitStep>, when: bool, step: CommitStep)
    ensures
        final(steps)@ == old(steps)@ + due(when, step),
{
    if when {
        steps.push(step);
    }
    proof {
        assert(steps@ =~= old(steps)@ + due(when, step));
    }
}

fn list_window_steps(f: &CommitFacts) -> (r: Vec<CommitStep>)
    ensures
        r@ == window_steps(*f),
{
    let mut steps: Vec<CommitStep> = Vec::new();
    if !f.is_sync && f.has_window {
        steps.push(CommitStep::WindowCommit);
        take_if(&mut steps, f.is_unplaced, CommitStep::PlaceWindow);
        steps.push(CommitStep::ResizeCommit);
        take_if(&mut steps, f.recenters, CommitStep::Recenter);
        steps.push(CommitStep::Reflow);
    }
    proof {
        assert(steps@ =~= window_steps(*f));
    }
    steps
}

fn list_surface_steps(f: &CommitFacts) -> (r: Vec<CommitStep>)
    ensures
        r@ == surface_steps(*f),
{
    let mut steps: Vec<CommitStep> = Vec::new();
    if f.on_canvas_layer || f.on_layer {
        if f.on_canvas_layer {
            steps.push(CommitStep::SettleCanvasLayer);
        } else {
            steps.push(CommitStep::ArrangeLayers);
        }
        take_if(&mut steps, !f.configured, CommitStep::Configure);
        steps.push(CommitStep::UpdateFocus);
        steps.push(CommitStep::CommitPopups);
    } else {
        steps.push(CommitStep::CommitPopups);
        take_if(&mut steps, f.is_toplevel && !f.configured, CommitStep::Configure);
    }
    proof {
        assert(steps@ =~= surface_steps(*f));
    }
    steps
}

/// The steps of a commit, in order.
pub fn commit_steps(f: &CommitFacts) -> (r: Vec<CommitStep>)
    ensures
        r@ == steps_of(*f),
{
    let mut steps: Vec<CommitStep> = Vec::new();
    take_if(&mut steps, f.carves, CommitStep::CarveCorners);
    steps.push(CommitStep::ImportBuffer);
    take_if(&mut steps, f.is_drag_icon, CommitStep::MoveIcon);
    proof {
        assert(steps@ =~= head_steps(*f));
    }
    if confirms_lock(f.lock_pending, f.is_lock_surface) {
        steps.push(CommitStep::ConfirmLock);
        proof {
            assert(steps@ =~= head_steps(*f) + seq![CommitStep::ConfirmLock]);
        }
    } else {
        let mut window: Vec<CommitStep> = list_window_steps(f);
        let mut surface: Vec<CommitStep> = list_surface_steps(f);
        steps.append(&mut window);
        steps.append(&mut surface);
    }
    steps
}

/// How often a step is taken.
pub open spec fn times(steps: Seq<CommitStep>, step: CommitStep) -> nat
    decreases steps.len(),
{
    if steps.len() == 0 {
        0
    } else {
        times(steps.drop_last(), step) + (if steps.last() == step {
            1nat
        } else {
            0nat
        })
    }
}

proof fn lemma_times_join(a: Seq<CommitStep>, b: Seq<CommitStep>, step: CommitStep)
    ensures
        times(a + b, step) == times(a, step) + times(b, step),
    decreases b.len(),
{
    if b.len() == 0 {
        assert(a + b =~= a);
    } else {
        assert((a + b).drop_last() =~= a + b.drop_last());
        lemma_times_join(a, b.drop_last(), step);
    }
}

proof fn lemma_times_one(s: CommitStep, step: CommitStep)
    ensures
        times(seq![s], step) == (if s == step {
            1nat
        } else {
            0nat
        }),
{
    reveal_with_fuel(times, 2);
    assert(seq![s].drop_last() =~= Seq::empty());
}

proof fn lemma_times_due(when: bool, s: CommitStep, step: CommitStep)
    ensures
        times(due(when, s), step) == (if when && s == step {
            1nat
        } else {
            0nat
        }),
{
    lemma_times_one(s, step);
}

proof fn lemma_times_head(f: CommitFacts, step: CommitStep)
    requires
        step is ImportBuffer || step is CommitPopups,
    ensures
        times(head_steps(f), step) == (if step is ImportBuffer {
            1nat
        } else {
            0nat
        }),
{
    let a = due(f.carves, CommitStep::CarveCorners);
    let b = seq![CommitStep::ImportBuffer];
    let c = due(f.is_drag_icon, CommitStep::MoveIcon);
    lemma_times_join(a + b, c, step);
    lemma_times_join(a, b, step);
    lemma_times_due(f.carves, CommitStep::CarveCorners, step);
    lemma_times_one(CommitStep::ImportBuffer, step);
    lemma_times_due(f.is_drag_icon, CommitStep::MoveIcon, step);
}

proof fn lemma_times_window(f: CommitFacts, step: CommitStep)
    requires
        step is ImportBuffer || step is CommitPopups,
    ensures
        times(window_steps(f), step) == 0,
{
    let a = seq![CommitStep::WindowCommit];
    let b = due(f.is_unplaced, CommitStep::PlaceWindow);
    let c = seq![CommitStep::ResizeCommit];
    let d = due(f.recenters, CommitStep::Recenter);
    let e = seq![CommitStep::Reflow];
    lemma_times_join(a + b + c + d, e, step);
    lemma_times_join(a + b + c, d, step);
    lemma_times_join(a + b, c, step);
    lemma_times_join(a, b, step);
    lemma_times_one(CommitStep::WindowCommit, step);
    lemma_times_due(f.is_unplaced, CommitStep::PlaceWindow, step);
    lemma_times_one(CommitStep::ResizeCommit, step);
    lemma_times_due(f.recenters, CommitStep::Recenter, step);
    lemma_times_one(CommitStep::Reflow, step);
}

proof fn lemma_times_surface(f: CommitFacts, step: CommitStep)
    requires
        step is ImportBuffer || step is CommitPopups,
    ensures
        times(surface_steps(f), step) == (if step is CommitPopups {
            1nat
        } else {
            0nat
        }),
{
    let configure = due(!f.configured, CommitStep::Configure);
    let end = seq![CommitStep::UpdateFocus, CommitStep::CommitPopups];
    let focus = seq![CommitStep::UpdateFocus];
    let popups = seq![CommitStep::CommitPopups];
    assert(end =~= focus + popups);
    lemma_times_join(focus, popups, step);
    lemma_times_one(CommitStep::UpdateFocus, step);
    lemma_times_one(CommitStep::CommitPopups, step);
    lemma_times_due(!f.configured, CommitStep::Configure, step);
    let settle = seq![CommitStep::SettleCanvasLayer];
    let arrange = seq![CommitStep::ArrangeLayers];
    lemma_times_one(CommitStep::SettleCanvasLayer, step);
    lemma_times_one(CommitStep::ArrangeLayers, step);
    lemma_times_join(settle, configure, step);
    lemma_times_join(settle + configure, end, step);
    lemma_times_join(arrange, configure, step);
    lemma_times_join(arrange + configure, end, step);
    lemma_times_join(popups, due(f.is_toplevel && !f.configured, CommitStep::Configure), step);
    lemma_times_due(f.is_toplevel && !f.configured, CommitStep::Configure, step);
}

/// Every commit imports its buffer once, before anything asks for the size of
/// the surface: only the carving of its region comes first. A commit that
/// confirms the session lock ends there; every other one commits the popups
/// once.
pub proof fn lemma_commit_order(f: CommitFacts)
    ensures
        times(steps_of(f), CommitStep::ImportBuffer) == 1,
        steps_of(f)[if f.carves {
            1
        } else {
            0
        }] is ImportBuffer,
        f.lock_pending && f.is_lock_surface ==> steps_of(f).last() is ConfirmLock,
        times(steps_of(f), CommitStep::CommitPopups) == (if f.lock_pending && f.is_lock_surface {
            0nat
        } else {
            1nat
        }),
{
    let head = head_steps(f);
    assert(head[if f.carves {
        1
    } else {
        0
    }] is ImportBuffer);
    let steps: Seq<CommitStep> = seq![CommitStep::ImportBuffer, CommitStep::CommitPopups];
    assert forall|i: int| 0 <= i < 2 implies times(steps_of(f), #[trigger] steps[i]) == (if i == 0 {
        1nat
    } else if f.lock_pending && f.is_lock_surface {
        0nat
    } else {
        1nat
    }) by {
        let step = steps[i];
        lemma_times_head(f, step);
        lemma_times_window(f, step);
        lemma_times_surface(f, step);
        lemma_times_join(head + window_steps(f), surface_steps(f), step);
        lemma_times_join(head, window_steps(f), step);
        lemma_times_join(head, seq![CommitStep::ConfirmLock], step);
        lemma_times_one(CommitStep::ConfirmLock, step);
    }
    assert(steps[0] is ImportBuffer && steps[1] is CommitPopups);
}

/// A step that is taken once if something holds.
pub open spec fn once_if(when: bool) -> nat {
    if when {
        1
    } else {
        0
    }
}

/// Each step of a commit is taken once if it is due, and not at all otherwise. A
/// commit that confirms the session lock takes no step for windows or layers, and
/// a subsurface that commits with its parent none for windows.
pub proof fn lemma_when_each_step_is_taken(f: CommitFacts, step: CommitStep)
    ensures
        ({
            let locks = f.lock_pending && f.is_lock_surface;
            let window = !locks && f.has_window && !f.is_sync;
            let layer = !locks && (f.on_canvas_layer || f.on_layer);
            times(steps_of(f), step) == once_if(
                match step {
                    CommitStep::CarveCorners => f.carves,
                    CommitStep::ImportBuffer => true,
                    CommitStep::MoveIcon => f.is_drag_icon,
                    CommitStep::ConfirmLock => locks,
                    CommitStep::WindowCommit => window,
                    CommitStep::PlaceWindow => window && f.is_unplaced,
                    CommitStep::ResizeCommit => window,
                    CommitStep::Recenter => window && f.recenters,
                    CommitStep::Reflow => window,
                    CommitStep::SettleCanvasLayer => layer && f.on_canvas_layer,
                    CommitStep::ArrangeLayers => layer && !f.on_canvas_layer,
                    CommitStep::Configure => !locks && !f.configured && (f.is_toplevel || layer),
                    CommitStep::UpdateFocus => layer,
                    CommitStep::CommitPopups => !locks,
                },
            )
        }),
{
    let h1 = due(f.carves, CommitStep::CarveCorners);
    let h2 = seq![CommitStep::ImportBuffer];
    let h3 = due(f.is_drag_icon, CommitStep::MoveIcon);
    lemma_times_join(h1 + h2, h3, step);
    lemma_times_join(h1, h2, step);
    lemma_times_due(f.carves, CommitStep::CarveCorners, step);
    lemma_times_one(CommitStep::ImportBuffer, step);
    lemma_times_due(f.is_drag_icon, CommitStep::MoveIcon, step);
    let a = seq![CommitStep::WindowCommit];
    let b = due(f.is_unplaced, CommitStep::PlaceWindow);
    let c = seq![CommitStep::ResizeCommit];
    let d = due(f.recenters, CommitStep::Recenter);
    let e = seq![CommitStep::Reflow];
    lemma_times_join(a + b + c + d, e, step);
    lemma_times_join(a + b + c, d, step);
    lemma_times_join(a + b, c, step);
    lemma_times_join(a, b, step);
    lemma_times_one(CommitStep::WindowCommit, step);
    lemma_times_due(f.is_unplaced, CommitStep::PlaceWindow, step);
    lemma_times_one(CommitStep::ResizeCommit, step);
    lemma_times_due(f.recenters, CommitStep::Recenter, step);
    lemma_times_one(CommitStep::Reflow, step);
    let configure = due(!f.configured, CommitStep::Configure);
    let last = due(f.is_toplevel && !f.configured, CommitStep::Configure);
    let focus = seq![CommitStep::UpdateFocus];
    let popups = seq![CommitStep::CommitPopups];
    let end = seq![CommitStep::UpdateFocus, CommitStep::CommitPopups];
    let settle = seq![CommitStep::SettleCanvasLayer];
    let arrange = seq![CommitStep::ArrangeLayers];
    assert(end == focus + popups);
    lemma_times_join(focus, popups, step);
    lemma_times_one(CommitStep::UpdateFocus, step);
    lemma_times_one(CommitStep::CommitPopups, step);
    lemma_times_due(!f.configured, CommitStep::Configure, step);
    lemma_times_due(f.is_toplevel && !f.configured, CommitStep::Configure, step);
    lemma_times_one(CommitStep::SettleCanvasLayer, step);
    lemma_times_one(CommitStep::ArrangeLayers, step);
    lemma_times_join(settle, configure, step);
    lemma_times_join(settle + configure, end, step);
    lemma_times_join(arrange, configure, step);
    lemma_times_join(arrange + configure, end, step);
    lemma_times_join(popups, last, step);
    lemma_times_one(CommitStep::ConfirmLock, step);
    let head = head_steps(f);
    lemma_times_join(head + window_steps(f), surface_steps(f), step);
    lemma_times_join(head, window_steps(f), step);
    lemma_times_join(head, seq![CommitStep::ConfirmLock], step);
}

/// How late in a commit each step comes. What configures a layer comes before
/// its popups; what configures a window comes after them.
pub open spec fn stage(f: CommitFacts, step: CommitStep) -> int {
    match step {
        CommitStep::CarveCorners => 0,
        CommitStep::ImportBuffer => 1,
        CommitStep::MoveIcon => 2,
        CommitStep::ConfirmLock => 3,
        CommitStep::WindowCommit => 4,
        CommitStep::PlaceWindow => 5,
        CommitStep::ResizeCommit => 6,
        CommitStep::Recenter => 7,
        CommitStep::Reflow => 8,
        CommitStep::SettleCanvasLayer => 9,
        CommitStep::ArrangeLayers => 9,
        CommitStep::Configure => if f.on_canvas_layer || f.on_layer {
            10
        } else {
            13
        },
        CommitStep::UpdateFocus => 11,
        CommitStep::CommitPopups => 12,
    }
}

/// Are steps in order, from one stage to another?
pub open spec fn in_order(f: CommitFacts, s: Seq<CommitStep>, from: int, to: int) -> bool {
    &&& forall|i: int| 0 <= i < s.len() ==> from <= stage(f, #[trigger] s[i]) < to
    &&& forall|i: int, j: int|
        0 <= i < j < s.len() ==> stage(f, #[trigger] s[i]) < stage(f, #[trigger] s[j])
}

/// The steps of a commit come in the order of their stages.
pub proof fn lemma_steps_are_in_order(f: CommitFacts)
    ensures
        in_order(f, steps_of(f), 0, 14),
{
    assert(in_order(f, head_steps(f), 0, 3));
    assert(in_order(f, seq![CommitStep::ConfirmLock], 3, 4));
    assert(in_order(f, window_steps(f), 4, 9));
    assert(in_order(f, surface_steps(f), 9, 14));
    assert(in_order(f, head_steps(f) + window_steps(f), 0, 9));
}

} // verus!
