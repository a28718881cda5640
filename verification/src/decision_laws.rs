//! When each small decision comes out one way or the other, said outcome by
//! outcome.
use vstd::prelude::*;

use crate::backend::winit;
use crate::canvas;
use crate::canvas::Candidate;
use crate::config;
use crate::config::bindings;
use crate::config::bindings::BindingContext;
use crate::config::decoration::{DecorationMode, TitleAlign};
use crate::config::numbers::Real;
use crate::config::patterns;
use crate::config::patterns::Pattern;
use crate::config::types::{
    Action, GestureBinding, GestureConfigEntry, GestureTrigger, KeyCombo, Keysym, ModKey, Modifiers,
    ModifiersState, MouseAction, MouseBinding, MouseTrigger,
};
use crate::config::window_rules;
use crate::config::window_rules::WindowRule;
use crate::config::{AxisSource, Config};
use crate::decorations;
use crate::decorations::{Spot, TitleBarLayout};
use crate::geometry::{Point, Rect, Size};
use crate::grabs::move_grab::{MoveGrab, MoveRoute};
use crate::grabs::pan_grab::{PanGrab, PanRelease, PanRoute};
use crate::grabs::resize_grab;
use crate::grabs::resize_grab::{
    ResizeCommit, ResizeEdge, ResizeGrab, ResizeRoute, ResizeState,
};
use crate::grabs::touch_fingers::ScreenPos;
use crate::grabs::touch_gesture_grab;
use crate::grabs::touch_gesture_grab::{CenterTarget, Handoff, Hit};
use crate::handlers::compositor;
use crate::handlers::compositor::{Growth, Neighbor, Reflow};
use crate::handlers::layer_shell;
use crate::handlers::layer_shell::{CanvasLayer, LayerFocus};
use crate::handlers::xdg_shell;
use crate::handlers::xdg_shell::{
    Asking, Granted, LiveGrab, PopupGrab, PopupParent, Requested, SessionLock,
};

verus! {

// ── Popups ───────────────────────────────────────────────────────────

/// A popup grab of a lock surface is honored while the session is locked, and no
/// other is. While it is not, that of a window is honored if the window has the
/// focus, and that of anything else always is.
pub proof fn lemma_whose_popup_grabs_are_honored(
    lock: SessionLock,
    lock_surfaces: Vec<u64>,
    windows: Vec<u64>,
    focus: Option<u64>,
    root: u64,
    r: bool,
)
    requires
        call_ensures(
            xdg_shell::popup_grab_allowed,
            (lock, &lock_surfaces, &windows, focus, root),
            r,
        ),
    ensures
        lock is Locked || lock is Pending ==> (r <==> exists|i: int|
            0 <= i < lock_surfaces@.len() && lock_surfaces@[i] == root),
        lock is Unlocked && focus == Some(root) ==> r,
        lock is Unlocked && focus != Some(root) ==> (r <==> forall|i: int|
            0 <= i < windows@.len() ==> windows@[i] != root),
{
}

/// A request that is not allowed dismisses the popup. One that would clobber the
/// grab of a device it needs is taken back. Any other grabs the pointer, and the
/// keyboard too unless an input method has it or the root cannot hold it.
pub proof fn lemma_what_popup_grabs_come_to(
    allowed: bool,
    input_method: bool,
    deaf: bool,
    keyboard: LiveGrab,
    pointer: LiveGrab,
    r: PopupGrab,
)
    requires
        call_ensures(xdg_shell::popup_grab, (allowed, input_method, deaf, keyboard, pointer), r),
    ensures
        ({
            let needs_keyboard = !(input_method || deaf);
            let strange = |g: LiveGrab| g.is_grabbed && !g.has_serial && !g.has_previous;
            let clash = strange(pointer) || (needs_keyboard && strange(keyboard));
            &&& r is Dismiss <==> !allowed
            &&& r is Ungrab <==> allowed && clash
            &&& r is Full <==> allowed && !clash && needs_keyboard
            &&& r is PointerOnly <==> allowed && !clash && !needs_keyboard
        }),
{
}

/// A popup unfolds in what is visible of the canvas, or on the output for a
/// layer of it, as seen from its parent: a spot of that area is as far from the
/// parent as the result has it.
pub proof fn lemma_where_popups_unfold(
    at: Point,
    visible: Rect,
    output: Size,
    offset: Point,
    on_window: Rect,
    on_canvas_layer: Rect,
    on_layer: Rect,
)
    requires
        -100000000 <= at.x <= 100000000 && -100000000 <= at.y <= 100000000,
        -100000000 <= offset.x <= 100000000 && -100000000 <= offset.y <= 100000000,
        -100000000 <= visible.loc.x <= 100000000 && -100000000 <= visible.loc.y <= 100000000,
        call_ensures(
            xdg_shell::popup_target,
            (PopupParent::Window(at), visible, output, offset),
            on_window,
        ),
        call_ensures(
            xdg_shell::popup_target,
            (PopupParent::CanvasLayer(at), visible, output, offset),
            on_canvas_layer,
        ),
        call_ensures(
            xdg_shell::popup_target,
            (PopupParent::Layer(at), visible, output, offset),
            on_layer,
        ),
    ensures
        on_window == on_canvas_layer,
        on_window.size == visible.size,
        on_window.loc.x + at.x + offset.x == visible.loc.x,
        on_window.loc.y + at.y + offset.y == visible.loc.y,
        on_layer.size == output,
        on_layer.loc.x + at.x + offset.x == 0,
        on_layer.loc.y + at.y + offset.y == 0,
{
}

// ── Requests of windows ──────────────────────────────────────────────

/// A request of a window that waits for its place waits too; that of any other
/// window is met, and that of no window is not.
pub proof fn lemma_when_requests_are_met(awaits: bool, is_window: bool, r: Requested)
    requires
        call_ensures(xdg_shell::request, (awaits, is_window), r),
    ensures
        r is Defer <==> awaits,
        r is Now <==> !awaits && is_window,
        r is Ignore <==> !awaits && !is_window,
{
}

/// A window may be moved or resized while a button is held on it, unless it is a
/// widget: a pinned one in screen space, any other on the canvas, where it needs
/// a place and an output. A resize needs both in either case.
pub proof fn lemma_which_drags_are_granted(a: Asking, moved: Granted, resized: Granted)
    requires
        call_ensures(xdg_shell::move_request, (&a,), moved),
        call_ensures(xdg_shell::resize_request, (&a,), resized),
    ensures
        ({
            let may = a.is_window && a.holds_button && !a.is_widget;
            let known = a.has_location && a.has_output;
            &&& moved is Pinned <==> may && a.is_pinned
            &&& moved is Canvas <==> may && !a.is_pinned && known
            &&& resized is Pinned <==> may && known && a.is_pinned
            &&& resized is Canvas <==> may && known && !a.is_pinned
        }),
{
}

/// Only a resize on the canvas moves the cluster, and only where that is set.
pub proof fn lemma_which_resizes_move_the_cluster(g: Granted, configured: bool, r: bool)
    requires
        call_ensures(xdg_shell::resizes_cluster, (g, configured), r),
    ensures
        r ==> configured,
        r ==> !(g is Pinned) && !(g is Refused),
        g is Canvas ==> r == configured,
{
}

// ── Commits ──────────────────────────────────────────────────────────

/// The corners of a toplevel are carved unless the server draws its frame or its
/// mode, the rule's before the default one, leaves it bare.
pub proof fn lemma_whose_corners_are_carved(
    framed: bool,
    rule: Option<DecorationMode>,
    default_mode: DecorationMode,
    toplevel: bool,
    r: bool,
)
    requires
        call_ensures(compositor::carves_corners, (framed, rule, default_mode, toplevel), r),
    ensures
        framed || !toplevel ==> !r,
        !framed && toplevel && rule is Some ==> r == !(rule->0 is Bare),
        !framed && toplevel && rule is None ==> r == !(default_mode is Bare),
{
}

/// A window is centered again once it has a size that differs from its fitted
/// one in width or height.
pub proof fn lemma_when_windows_are_recentered(now: Size, before: Size, r: bool)
    requires
        call_ensures(compositor::recenter_due, (now, before), r),
    ensures
        r <==> now.w > 0 && now.h > 0 && !(now.w == before.w && now.h == before.h),
{
}

/// A drag icon moves by what its surface is moved by, and not at all without
/// that.
pub proof fn lemma_how_icons_move(offset: Point, delta: Option<Point>, r: Point)
    requires
        call_ensures(compositor::move_icon, (offset, delta), r),
    ensures
        delta is None ==> r == offset,
        delta is Some && i32::MIN <= offset.x + delta->0.x <= i32::MAX ==> r.x - offset.x
            == delta->0.x,
        delta is Some && i32::MIN <= offset.y + delta->0.y <= i32::MAX ==> r.y - offset.y
            == delta->0.y,
{
}

/// A layer on the canvas keeps the place that it has. Without one it gets it as
/// soon as it has a size: its middle is at the point of its rule, within one, with
/// the vertical axis turned over.
pub proof fn lemma_when_canvas_layers_settle(
    position: Option<Point>,
    rule: (i32, i32),
    size: Size,
    r: Option<Point>,
)
    requires
        call_ensures(compositor::canvas_layer_position, (position, rule, size), r),
        -100000000 <= rule.0 <= 100000000 && -100000000 <= rule.1 <= 100000000,
        size.w <= 100000000 && size.h <= 100000000,
    ensures
        position is Some ==> r == position,
        position is None ==> (r is Some <==> size.w > 0 && size.h > 0),
        position is None && r is Some ==> {
            &&& -1 <= 2 * r->0.x + size.w - 2 * rule.0 <= 1
            &&& -1 <= 2 * r->0.y + size.h + 2 * rule.1 <= 1
        },
{
}

/// A window that grew over another is placed beside one that it was snapped to,
/// if its size is its own affair: not while it is fullscreen, fitted or filled, or
/// being resized.
pub proof fn lemma_when_windows_reflow(g: Growth, neighbors: Vec<Neighbor>, r: Option<u64>)
    requires
        call_ensures(compositor::reflow_anchor, (&g, &neighbors), r),
    ensures
        !g.idle || g.is_fullscreen || g.is_fit || g.is_fill || !compositor::grew(g) ==> r is None,
        (forall|i: int| 0 <= i < neighbors@.len() ==> !(#[trigger] neighbors@[i]).overlaps) ==> r
            is None,
        g.idle && !g.is_fullscreen && !g.is_fit && !g.is_fill && compositor::grew(g) && (exists|
            i: int,
        |
            0 <= i < neighbors@.len() && (#[trigger] neighbors@[i]).overlaps) ==> r
            == compositor::first_adjacent(neighbors@),
{
}

/// A window moves to its new place unless it is there already or there is none;
/// the view follows it if it has the focus and less than 0.999 of it is seen.
pub proof fn lemma_how_windows_reflow(
    place: Option<Point>,
    now: Option<Point>,
    focused: bool,
    visible: Real,
    r: Reflow,
)
    requires
        call_ensures(compositor::reflow, (place, now, focused, &visible), r),
    ensures
        r is Stay <==> place is None || place == now,
        r matches Reflow::Move(p) ==> Some(p) == place,
        r matches Reflow::MoveAndFollow(p) ==> Some(p) == place && focused,
        !(r is Stay) && visible.bits <= 0x7ff0_0000_0000_0000 ==> (r is MoveAndFollow <==> focused
            && visible.bits < 0x3fef_f7ce_d916_872b),
{
}

/// The counter of commits goes up by one, and from its end to the start.
pub proof fn lemma_commits_are_counted(n: u64, r: u64)
    requires
        call_ensures(compositor::count_commit, (n,), r),
    ensures
        r == (n + 1) % 0x1_0000_0000_0000_0000,
{
}

/// The session lock is confirmed by a lock surface while it is pending.
pub proof fn lemma_what_confirms_the_lock(pending: bool, lock_surface: bool, r: bool)
    requires
        call_ensures(compositor::confirms_lock, (pending, lock_surface), r),
    ensures
        !r <==> !pending || !lock_surface,
{
}

// ── Layers ───────────────────────────────────────────────────────────

/// When a layer that has the focus is destroyed, the focus goes to the window
/// that had it last, if there is one; otherwise the focus stays.
pub proof fn lemma_focus_after_a_layer(
    layers: Vec<CanvasLayer>,
    id: u64,
    focus: Option<u64>,
    history: Vec<u64>,
    r: (Vec<CanvasLayer>, LayerFocus),
)
    requires
        call_ensures(layer_shell::layer_destroyed, (layers, id, focus, &history), r),
    ensures
        r.1 is Keep <==> focus != Some(id),
        r.1 matches LayerFocus::To(t) ==> (t is Some <==> history@.len() > 0),
        r.1 matches LayerFocus::To(Some(w)) ==> w == history@[0],
{
}

// ── Frames ───────────────────────────────────────────────────────────

/// Frames come every 16 milliseconds until the loop is stopped.
pub proof fn lemma_when_the_next_frame_comes(stop: bool, r: Option<u64>)
    requires
        call_ensures(winit::next_frame, (stop,), r),
    ensures
        stop ==> r is None,
        !stop ==> r == Some(16u64),
{
}

/// A frame accounts for the time that has passed, up to 33 milliseconds.
pub proof fn lemma_how_long_a_frame_is(elapsed: u64, r: u64)
    requires
        call_ensures(winit::frame_time, (elapsed,), r),
    ensures
        r <= elapsed && r <= 33_000_000,
        r == elapsed || r == 33_000_000,
{
}

/// A frame is drawn anew where nothing is known of the buffer, where a tiled
/// background moved with the view, and where an animated one is seen through a
/// window; otherwise over what is there.
pub proof fn lemma_what_a_frame_is_drawn_over(
    reported: Option<usize>,
    tiled: bool,
    moved: bool,
    zoomed: bool,
    animated: bool,
    seen: bool,
    r: usize,
)
    requires
        call_ensures(winit::buffer_age, (reported, tiled, moved, zoomed, animated, seen), r),
    ensures
        reported is None ==> r == 0,
        tiled && moved ==> r == 0,
        tiled && zoomed ==> r == 0,
        animated && seen ==> r == 0,
        !animated && !tiled && reported is Some ==> Some(r) == reported,
        !animated && !moved && !zoomed && reported is Some ==> Some(r) == reported,
        !seen && !tiled && reported is Some ==> Some(r) == reported,
        !seen && !moved && !zoomed && reported is Some ==> Some(r) == reported,
{
}

/// A frame is submitted if it could be drawn and anything has changed.
pub proof fn lemma_which_frames_are_submitted(bound: bool, damaged: bool, r: bool)
    requires
        call_ensures(winit::submits, (bound, damaged), r),
    ensures
        !r <==> !bound || !damaged,
{
}

// ── View ─────────────────────────────────────────────────────────────

/// A zoom nearer to full zoom than a twentieth is full zoom, and any other is
/// kept.
pub proof fn lemma_which_zooms_snap(zoom: Real, distance: Real, r: Real)
    requires
        call_ensures(canvas::snap_zoom, (zoom, &distance), r),
        distance.bits <= 0x7ff0_0000_0000_0000,
    ensures
        distance.bits < 0x3fa9_9999_9999_999a ==> r.bits == 0x3ff0_0000_0000_0000,
        distance.bits >= 0x3fa9_9999_9999_999a ==> r == zoom,
{
}

/// The zoom that fits is at most full and at least a thousandth.
pub proof fn lemma_limits_of_zoom(zoom: Real, r: Real)
    requires
        call_ensures(canvas::clamp_zoom, (zoom,), r),
        zoom.bits <= 0x7ff0_0000_0000_0000,
    ensures
        0x3f50_624d_d2f1_a9fc <= r.bits <= 0x3ff0_0000_0000_0000,
        0x3f50_624d_d2f1_a9fc <= zoom.bits <= 0x3ff0_0000_0000_0000 ==> r == zoom,
        zoom.bits < 0x3f50_624d_d2f1_a9fc ==> r.bits == 0x3f50_624d_d2f1_a9fc,
{
}

/// The origin is seen if and only if neither coordinate of the near corner is
/// above zero and neither of the far corner is below.
pub proof fn lemma_when_the_origin_is_seen(camera: ScreenPos, far: ScreenPos, r: bool)
    requires
        call_ensures(canvas::is_origin_visible, (&camera, &far), r),
    ensures
        ({
            let above = |n: Real| 0 < n.bits <= 0x7ff0_0000_0000_0000;
            let below = |n: Real| 0x8000_0000_0000_0000 < n.bits <= 0xfff0_0000_0000_0000;
            let number = |n: Real|
                n.bits <= 0x7ff0_0000_0000_0000 || 0x8000_0000_0000_0000 <= n.bits
                    <= 0xfff0_0000_0000_0000;
            number(camera.x) && number(camera.y) && number(far.x) && number(far.y) ==> (r
                <==> !above(camera.x) && !above(camera.y) && !below(far.x) && !below(far.y))
        }),
{
}

// ── Grabs ────────────────────────────────────────────────────────────

/// A moved window parks over a fullscreen one and without an output to move on;
/// a pinned one stays in screen space; any other follows the pointer, and goes
/// over to another output with it.
pub proof fn lemma_where_moves_go(
    g: MoveGrab,
    over_fullscreen: bool,
    resolved: bool,
    other: bool,
    r: MoveRoute,
)
    requires
        call_ensures(MoveGrab::route, (&g, over_fullscreen, resolved, other), r),
    ensures
        r is Park <==> over_fullscreen || !resolved,
        r is Pinned <==> !over_fullscreen && resolved && g.pinned,
        r is Teleport <==> !over_fullscreen && resolved && !g.pinned && other,
        r is Follow <==> !over_fullscreen && resolved && !g.pinned && !other,
{
}

/// Only the finger that drives a move moves the window; it goes as a pointer
/// would, on one output.
pub proof fn lemma_where_touch_moves_go(g: MoveGrab, slot: i32, resolved: bool, r: MoveRoute)
    requires
        call_ensures(MoveGrab::touch_route, (&g, slot, resolved), r),
    ensures
        r is PassThrough <==> g.touch_slot != Some(slot),
        g.touch_slot == Some(slot) ==> (r is Park <==> !resolved),
        g.touch_slot == Some(slot) && resolved ==> (r is Pinned <==> g.pinned) && (r is Follow
            <==> !g.pinned),
{
}

/// A pan goes on over its own output and snaps back over another. Letting go of
/// the last button ends it; a click on the empty canvas clears the focus, and a
/// drag or a pan that began on something does not.
pub proof fn lemma_pans(
    g: PanGrab,
    other: bool,
    pressed: bool,
    r: PanRoute,
    b: Option<PanRelease>,
)
    requires
        call_ensures(PanGrab::route, (&g, other), r),
        call_ensures(PanGrab::button, (&g, pressed), b),
    ensures
        r is SnapBack <==> other,
        r is Pan <==> !other,
        b is None <==> pressed,
        b matches Some(e) ==> (e.clear_focus <==> g.from_empty_canvas && !g.dragged),
{
}

/// A resize of what is gone passes through, and one over another output snaps
/// back; only the finger that drives a resize resizes the window.
pub proof fn lemma_where_resizes_go(
    g: ResizeGrab,
    slot: i32,
    resolved: bool,
    other: bool,
    r: ResizeRoute,
    t: ResizeRoute,
)
    requires
        call_ensures(ResizeGrab::route, (&g, resolved, other), r),
        call_ensures(ResizeGrab::touch_route, (&g, slot, resolved), t),
    ensures
        r is SnapBack <==> resolved && other,
        !resolved ==> r is PassThrough && t is PassThrough,
        g.touch_slot != Some(slot) ==> t is PassThrough,
        resolved && !other && g.touch_slot == Some(slot) ==> t == r,
        r is Canvas <==> resolved && !other && g.pinned_initial_screen_pos is None,
        r is Pinned <==> resolved && !other && g.pinned_initial_screen_pos is Some && g.is_client,
{
}

/// The ratio of a window is locked where that is asked for and it has one; a
/// resize at a locked ratio does not snap.
pub proof fn lemma_locked_ratios(
    preserve: bool,
    size: Size,
    g: ResizeGrab,
    enabled: bool,
    locked: bool,
    snaps: bool,
)
    requires
        call_ensures(resize_grab::locks_ratio, (preserve, size), locked),
        call_ensures(ResizeGrab::snaps, (&g, enabled), snaps),
    ensures
        locked ==> preserve,
        preserve ==> (locked <==> size.w > 0 && size.h > 0),
        g.locked_ratio ==> !snaps,
        !g.locked_ratio ==> snaps == enabled,
{
}

/// A drag on a pinned window goes to it, unless it is a widget; one on a window
/// of the canvas goes to that, with its cluster where that is asked for; any
/// other is refused.
pub proof fn lemma_what_drags_are_handed_to(
    pinned: Option<Hit>,
    canvas: Option<Hit>,
    cluster: bool,
    r: Handoff,
)
    requires
        call_ensures(touch_gesture_grab::hand_off, (pinned, canvas, cluster), r),
    ensures
        r is Pinned <==> pinned is Some && !pinned->0.is_widget,
        r is Canvas <==> pinned is None && canvas is Some && canvas->0.is_canvas_window,
        r matches Handoff::Canvas { cluster: c } ==> c == cluster,
{
}

/// The window under a tap is centered, or the focused one where there is none;
/// each only if it is on the canvas.
pub proof fn lemma_which_window_is_centered(
    under: Option<Hit>,
    focused: Option<Hit>,
    r: Option<CenterTarget>,
)
    requires
        call_ensures(touch_gesture_grab::center_target, (under, focused), r),
    ensures
        ({
            let (u, f) = (
                under is Some && under->0.is_canvas_window,
                focused is Some && focused->0.is_canvas_window,
            );
            &&& r == Some(CenterTarget::Under) <==> u
            &&& r == Some(CenterTarget::Focused) <==> !u && f
        }),
{
}

// ── Scrolling ────────────────────────────────────────────────────────

/// Scrolling with fingers is bound as on a trackpad, and scrolling with anything
/// else as on a wheel.
pub proof fn lemma_which_scrolling_is_meant(
    c: Config,
    m: ModifiersState,
    source: AxisSource,
    cx: BindingContext,
    r: Option<&MouseAction>,
)
    requires
        call_ensures(Config::mouse_scroll_lookup_ctx, (&c, &m, source, cx), r),
    ensures
        ({
            let bound = |t: MouseTrigger|
                bindings::bound_in(
                    c.mouse@,
                    (MouseBinding { modifiers: config::types::modifiers_from(m), trigger: t }),
                    cx,
                );
            &&& source is Finger ==> bindings::opt_view(r) == bound(MouseTrigger::TrackpadScroll)
            &&& !(source is Finger) ==> bindings::opt_view(r) == bound(MouseTrigger::WheelScroll)
        }),
{
}

// ── Resizing ─────────────────────────────────────────────────────────

/// Does an edge drag the left or the right side?
pub open spec fn drags_side(e: ResizeEdge) -> (bool, bool) {
    (
        e is Left || e is TopLeft || e is BottomLeft,
        e is Right || e is TopRight || e is BottomRight,
    )
}

/// Does an edge drag the top or the bottom side?
pub open spec fn drags_end(e: ResizeEdge) -> (bool, bool) {
    (e is Top || e is TopLeft || e is TopRight, e is Bottom || e is BottomLeft || e is BottomRight)
}

/// A drag gives the window the size with which each side that it drags, those of
/// a corner too, goes along; the window is put where every other side stays.
pub proof fn lemma_drags_resize(
    at: Point,
    initial: Size,
    e: ResizeEdge,
    dx: i32,
    dy: i32,
    size: Option<Size>,
    place: Option<Point>,
)
    requires
        call_ensures(resize_grab::drag_target, (initial, e, dx, dy), size),
        size is Some,
        call_ensures(resize_grab::reposition, (at, initial, e, size->0), place),
        place is Some,
    ensures
        ({
            let (s, p) = (size->0, place->0);
            let moved = |drags: bool, d: i32|
                if drags {
                    d as int
                } else {
                    0
                };
            &&& p.x == at.x + moved(drags_side(e).0, dx)
            &&& p.x + s.w == at.x + initial.w + moved(drags_side(e).1, dx)
            &&& p.y == at.y + moved(drags_end(e).0, dy)
            &&& p.y + s.h == at.y + initial.h + moved(drags_end(e).1, dy)
        }),
{
}

/// A drag has a size unless one of its lengths fits no coordinate.
pub proof fn lemma_drags_have_a_size(
    initial: Size,
    e: ResizeEdge,
    dx: i32,
    dy: i32,
    size: Option<Size>,
)
    requires
        call_ensures(resize_grab::drag_target, (initial, e, dx, dy), size),
        0 <= initial.w <= 1000000000 && 0 <= initial.h <= 1000000000,
        -1000000000 <= dx <= 1000000000 && -1000000000 <= dy <= 1000000000,
    ensures
        size is Some,
{
}

/// A commit of a resizing window keeps the sides that are not dragged where they
/// were, on the output for a pinned window and on the canvas for any other. The
/// last commit settles the resize, and a changed size makes the blur stale.
pub proof fn lemma_commits_keep_the_fixed_sides(
    state: ResizeState,
    now: Size,
    r: Option<ResizeCommit>,
)
    requires
        call_ensures(resize_grab::handle_resize_commit, (state, now), r),
    ensures
        state is Idle ==> r is None,
        r matches Some(c) ==> {
            let d = resize_grab::started(state)->0;
            let at = if d.initial_screen_pos is Some {
                d.initial_screen_pos->0
            } else {
                d.initial_window_location
            };
            &&& c.pinned <==> d.initial_screen_pos is Some
            &&& c.settled <==> state is WaitingForLastCommit
            &&& c.bump_blur <==> !(now.w == d.last_committed_size.w && now.h
                == d.last_committed_size.h)
            &&& drags_side(d.edges).0 ==> c.location.x + now.w == at.x + d.initial_window_size.w
            &&& !drags_side(d.edges).0 ==> c.location.x == at.x
            &&& drags_end(d.edges).0 ==> c.location.y + now.h == at.y + d.initial_window_size.h
            &&& !drags_end(d.edges).0 ==> c.location.y == at.y
            &&& c.next is Idle <==> state is WaitingForLastCommit
        },
{
}

/// A size without a locked ratio is what is asked for, held to the bounds of each
/// of its lengths apart.
pub proof fn lemma_sizes_are_held(g: ResizeGrab, target: Size, h: i32, w: i32, r: Size)
    requires
        call_ensures(ResizeGrab::held, (&g, target, h, w), r),
        !g.locked_ratio,
    ensures
        ({
            let c = g.constraints;
            let within = |min: i32, max: i32, n: i32| n >= 1 && n >= min && (max <= 0 || n <= max);
            &&& within(c.min.w, c.max.w, target.w) ==> r.w == target.w
            &&& within(c.min.h, c.max.h, target.h) ==> r.h == target.h
            &&& c.max.w > 0 ==> r.w <= c.max.w
            &&& c.max.h > 0 ==> r.h <= c.max.h
            &&& c.max.w <= 0 ==> r.w >= c.min.w
            &&& c.max.h <= 0 ==> r.h >= c.min.h
            &&& r.w >= 1 && r.h >= 1
        }),
{
}

/// A suspended window that stays above its least size is dragged as any other:
/// each dragged side goes along, and every other stays.
pub proof fn lemma_suspended_windows_resize(
    e: ResizeEdge,
    at: Point,
    size: Size,
    dx: i32,
    dy: i32,
    r: Option<(Point, Size)>,
)
    requires
        call_ensures(resize_grab::resize_suspended, (e, at, size, dx, dy), r),
        r is Some,
        size.w - dx >= 120 && size.w + dx >= 120 && size.h - dy >= 120 && size.h + dy >= 120,
    ensures
        ({
            let (p, s) = r->0;
            let moved = |drags: bool, d: i32|
                if drags {
                    d as int
                } else {
                    0
                };
            &&& p.x == at.x + moved(drags_side(e).0, dx)
            &&& p.x + s.w == at.x + size.w + moved(drags_side(e).1, dx)
            &&& p.y == at.y + moved(drags_end(e).0, dy)
            &&& p.y + s.h == at.y + size.h + moved(drags_end(e).1, dy)
        }),
{
}

// ── Rules and neighbors ──────────────────────────────────────────────

/// A rule matches a window by each criterion that it has, and is not held up by
/// one that it has not.
pub proof fn lemma_which_windows_a_rule_matches(
    rule: WindowRule,
    app_id: &str,
    title: &str,
    r: bool,
)
    requires
        call_ensures(WindowRule::matches, (&rule, app_id, title), r),
    ensures
        ({
            let app = |p: Pattern| patterns::pattern_matches(p@, app_id@);
            let named = |p: Pattern| patterns::pattern_matches(p@, title@);
            &&& rule.app_id is None && rule.title is None ==> r
            &&& rule.app_id is None && rule.title is Some ==> r == named(rule.title->0)
            &&& rule.app_id is Some && rule.title is None ==> r == app(rule.app_id->0)
            &&& rule.app_id is Some && rule.title is Some ==> r == (app(rule.app_id->0) && named(
                rule.title->0,
            ))
        }),
{
}

/// The nearest window is none that is left out, lies ahead, and is no farther to
/// the side than ahead. There is one unless no window is like that.
pub proof fn lemma_which_window_is_nearest(
    items: Vec<Candidate>,
    skip: Option<u64>,
    r: Option<u64>,
)
    requires
        call_ensures(canvas::find_nearest, (&items, skip), r),
    ensures
        r is None ==> forall|i: int| 0 <= i < items@.len() ==> !canvas::ahead(
            #[trigger] items@[i],
            skip,
        ),
        r matches Some(id) ==> exists|i: int|
            0 <= i < items@.len() && (#[trigger] items@[i]).id == id && canvas::ahead(
                items@[i],
                skip,
            ),
{
    canvas::lemma_nearest_lies_ahead(items@, skip);
    if let Some(b) = canvas::best_candidate(items@, skip) {
        assert(items@[b].id == r->0);
    }
}

// ── Places ───────────────────────────────────────────────────────────

/// Is a point far from the ends of the coordinates?
pub open spec fn modest(x: int, y: int) -> bool {
    -500000000 <= x <= 500000000 && -500000000 <= y <= 500000000
}

/// Turning a place into the coordinates of rules and back gives it again, and so
/// does the other way round.
pub proof fn lemma_places_turn_back(
    at: Point,
    x: i32,
    y: i32,
    size: Size,
    rule: (i32, i32),
    again: Point,
    corner: Point,
    center: (i32, i32),
)
    requires
        modest(at.x as int, at.y as int),
        modest(x as int, y as int),
        modest(size.w as int, size.h as int),
        call_ensures(canvas::internal_to_rule, (at, size), rule),
        call_ensures(canvas::rule_to_internal, (rule.0, rule.1, size), again),
        call_ensures(canvas::rule_to_internal, (x, y, size), corner),
        call_ensures(canvas::internal_to_rule, (corner, size), center),
    ensures
        again == at,
        center == (x, y),
{
}

/// A window that is moved onto an output that it fits lies on it, stays put if it
/// did already, and each of its coordinates goes by its own length.
pub proof fn lemma_windows_are_moved_onto_outputs(at: Point, size: Size, output: Size, r: Point)
    requires
        call_ensures(canvas::clamp_to_output, (at, size, output), r),
        0 <= size.w <= output.w && 0 <= size.h <= output.h,
    ensures
        0 <= r.x && r.x + size.w <= output.w,
        0 <= r.y && r.y + size.h <= output.h,
        0 <= at.x && at.x + size.w <= output.w ==> r.x == at.x,
        0 <= at.y && at.y + size.h <= output.h ==> r.y == at.y,
{
}

/// The rectangle of the close button is where the close button is hit.
pub proof fn lemma_close_button_is_its_rectangle(
    pos: Spot,
    at: Point,
    width: i32,
    bar_height: i32,
    r: Rect,
    hit: bool,
)
    requires
        modest(at.x as int, at.y as int),
        modest(width as int, bar_height as int),
        call_ensures(decorations::close_button_rect, (at, width, bar_height), r),
        call_ensures(decorations::close_button_contains, (pos, at, width, bar_height), hit),
    ensures
        hit <==> r.loc.x <= pos.x < r.loc.x + r.size.w && r.loc.y <= pos.y < r.loc.y + r.size.h,
        r.loc.x + r.size.w + 8 == at.x + width,
        r.loc.y + r.size.h == at.y,
{
}

/// The title is drawn where there is one and there is room for it, where titles
/// start.
pub proof fn lemma_which_titles_are_drawn(
    l: TitleBarLayout,
    align: TitleAlign,
    empty: bool,
    width: i32,
    r: Option<i64>,
)
    requires
        call_ensures(decorations::title_origin, (&l, align, empty, width), r),
    ensures
        r is Some <==> !empty && l.text_left < l.text_right,
        r is Some && align is Left ==> r == Some(l.text_left as i64),
{
}

/// The windows of a list are boxed, and an empty canvas has no box.
pub proof fn lemma_which_canvas_has_a_box(
    windows: Vec<(Point, Size)>,
    r: Option<Rect>,
)
    requires
        call_ensures(canvas::all_windows_bbox, (&windows,), r),
    ensures
        r is None <==> windows@.len() == 0,
{
}

// ── Looking up ───────────────────────────────────────────────────────

/// A key press is looked up by the modifiers that are down and its symbol, where
/// a capital is its small letter.
pub proof fn lemma_capitals_are_looked_up_small(
    c: Config,
    m: ModifiersState,
    letter: u32,
    capital: Option<&Action>,
    small: Option<&Action>,
)
    requires
        0x41 <= letter <= 0x5a,
        call_ensures(Config::lookup, (&c, &m, Keysym { raw: letter }), capital),
        call_ensures(Config::lookup, (&c, &m, Keysym { raw: (letter + 0x20) as u32 }), small),
    ensures
        bindings::opt_view(capital) == bindings::opt_view(small),
        bindings::opt_view(small) == bindings::bound(
            c.bindings@,
            KeyCombo {
                modifiers: Modifiers {
                    ctrl: m.ctrl,
                    alt: m.alt,
                    shift: m.shift,
                    logo: m.logo,
                    mod3: m.iso_level5_shift,
                },
                sym: Keysym { raw: (letter + 0x20) as u32 },
            },
        ),
{
}

/// Buttons, gestures and touches are looked up in the tables of their own device,
/// first in the one of the context and after that in the one for anywhere.
pub proof fn lemma_each_device_has_its_tables(
    c: Config,
    m: ModifiersState,
    button: u32,
    trigger: GestureTrigger,
    pressed: Option<&MouseAction>,
    swiped: Option<&GestureConfigEntry>,
    touched: Option<&GestureConfigEntry>,
)
    requires
        call_ensures(
            Config::mouse_button_lookup_ctx,
            (&c, &m, button, BindingContext::OnWindow),
            pressed,
        ),
        call_ensures(
            Config::gesture_lookup,
            (&c, &m, &trigger, BindingContext::OnWindow),
            swiped,
        ),
        call_ensures(Config::touch_lookup, (&c, &trigger, BindingContext::OnWindow), touched),
    ensures
        ({
            let modifiers = Modifiers {
                ctrl: m.ctrl,
                alt: m.alt,
                shift: m.shift,
                logo: m.logo,
                mod3: m.iso_level5_shift,
            };
            let b = MouseBinding { modifiers, trigger: MouseTrigger::Button(button) };
            let g = GestureBinding { modifiers, trigger };
            &&& bindings::opt_view(pressed) == (match bindings::bound(c.mouse@.on_window, b) {
                Some(a) => Some(a),
                None => bindings::bound(c.mouse@.anywhere, b),
            })
            &&& bindings::opt_view(swiped) == (match bindings::bound(c.gestures@.on_window, g) {
                Some(a) => Some(a),
                None => bindings::bound(c.gestures@.anywhere, g),
            })
            &&& bindings::opt_view(touched) == (match bindings::bound(
                c.touch_gestures@.on_window,
                trigger,
            ) {
                Some(a) => Some(a),
                None => bindings::bound(c.touch_gestures@.anywhere, trigger),
            })
        }),
{
}

/// The bare mod key is the one modifier that it stands for.
pub proof fn lemma_bare_mod_key(k: ModKey, r: Modifiers)
    requires
        call_ensures(ModKey::base, (k,), r),
    ensures
        r.alt <==> k is Alt,
        r.logo <==> k is Super,
        r.mod3 <==> k is Mod3,
        !r.ctrl && !r.shift,
{
}

/// A rule's mode of decoration counts, and the default one without.
pub proof fn lemma_which_mode_counts(
    rule: Option<DecorationMode>,
    default_mode: DecorationMode,
    r: DecorationMode,
)
    requires
        call_ensures(window_rules::effective_decoration_mode, (rule, default_mode), r),
    ensures
        rule is Some ==> Some(r) == rule,
        rule is None ==> r == default_mode,
{
}

} // verus!
