//! What the requests of windows and popups decide: popup grabs, deferred
//! fullscreen and fit, where focus goes when a window closes, and where a popup
//! may unfold. Windows and surfaces are known by number.
use vstd::prelude::*;

use crate::geometry;
use crate::geometry::{hold, Point, Rect, Size};
use crate::grabs::resize_grab::ResizeEdge;

verus! {

// ── Popups ───────────────────────────────────────────────────────────

/// The state of the session lock.
#[derive(Clone, Copy, Debug, PartialEq, Eq, Structural)]
pub enum SessionLock {
    Unlocked,
    Pending,
    Locked,
}

/// Is a number among others?
pub open spec fn among(s: Seq<u64>, id: u64) -> bool {
    s.contains(id)
}

fn is_among(v: &Vec<u64>, id: u64) -> (r: bool)
    ensures
        r == among(v@, id),
{
    let n: usize = v.len();
    let mut i: usize = 0;
    while i < n
        invariant
            i <= n,
            n == v@.len(),
            forall|j: int| 0 <= j < i ==> v@[j] != id,
        decreases n - i,
    {
        if v[i] == id {
            return true;
        }
        i = i + 1;
    }
    false
}

/// May a popup grab under `root` be honored? While the session is locked, only
/// that of a lock surface. A window has to hold the keyboard focus, else a
/// hidden client could steal input. Layers always may.
pub fn popup_grab_allowed(
    lock: SessionLock,
    lock_surfaces: &Vec<u64>,
    windows: &Vec<u64>,
    focus: Option<u64>,
    root: u64,
) -> (r: bool)
    ensures
        r == (if !(lock is Unlocked) {
            among(lock_surfaces@, root)
        } else {
            !among(windows@, root) || focus == Some(root)
        }),
{
    let unlocked: bool = match lock {
        SessionLock::Unlocked => true,
        _ => false,
    };
    if !unlocked {
        return is_among(lock_surfaces, root);
    }
    if !is_among(windows, root) {
        return true;
    }
    match focus {
        Some(f) => f == root,
        None => false,
    }
}

/// A live grab of an input device, seen from a popup's grab request.
#[derive(Clone, Copy, Debug, PartialEq, Eq, Structural)]
pub struct LiveGrab {
    pub is_grabbed: bool,
    /// The live grab has the serial of the request.
    pub has_serial: bool,
    /// The live grab has the serial of the parent popup's grab; set too where
    /// there is no parent grab.
    pub has_previous: bool,
}

/// Would a popup's grab clobber an unrelated one? A nested submenu is fine.
pub open spec fn clobbers(g: LiveGrab) -> bool {
    g.is_grabbed && !(g.has_serial || g.has_previous)
}

/// What a popup's grab request comes to.
#[derive(Clone, Copy, Debug, PartialEq, Eq, Structural)]
pub enum PopupGrab {
    /// The popup is dismissed.
    Dismiss,
    /// The grab is taken back.
    Ungrab,
    /// Pointer and keyboard are grabbed.
    Full,
    /// Only the pointer is grabbed.
    PointerOnly,
}

/// What a popup's grab request comes to. The keyboard is grabbed only where the
/// root can hold it: not while an input method owns it, nor for a layer without
/// keyboard interactivity.
pub fn popup_grab(
    allowed: bool,
    input_method_owns_keyboard: bool,
    root_is_deaf_layer: bool,
    keyboard: LiveGrab,
    pointer: LiveGrab,
) -> (r: PopupGrab)
    ensures
        ({
            let full = !input_method_owns_keyboard && !root_is_deaf_layer;
            r == (if !allowed {
                PopupGrab::Dismiss
            } else if (full && clobbers(keyboard)) || clobbers(pointer) {
                PopupGrab::Ungrab
            } else if full {
                PopupGrab::Full
            } else {
                PopupGrab::PointerOnly
            })
        }),
{
    let full: bool = !input_method_owns_keyboard && !root_is_deaf_layer;
    let keyboard_mismatch: bool = full && keyboard.is_grabbed && !(keyboard.has_serial
        || keyboard.has_previous);
    let pointer_mismatch: bool = pointer.is_grabbed && !(pointer.has_serial
        || pointer.has_previous);
    if !allowed {
        PopupGrab::Dismiss
    } else if keyboard_mismatch || pointer_mismatch {
        PopupGrab::Ungrab
    } else if full {
        PopupGrab::Full
    } else {
        PopupGrab::PointerOnly
    }
}

/// A rectangle moved by an offset, held to the range of coordinates.
pub open spec fn moved_by(r: Rect, dx: int, dy: int) -> Rect {
    Rect {
        loc: Point {
            x: geometry::held(r.loc.x + dx) as i32,
            y: geometry::held(r.loc.y + dy) as i32,
        },
        size: r.size,
    }
}

/// What a popup hangs from.
#[derive(Clone, Copy, Debug, PartialEq, Eq, Structural)]
pub enum PopupParent {
    /// A window on the canvas, at its place.
    Window(Point),
    /// A layer surface on the canvas, at its place.
    CanvasLayer(Point),
    /// A layer surface on the output, at its place there.
    Layer(Point),
}

/// The area that a popup may unfold in, seen from its parent popup or surface:
/// what is visible of the canvas, for parents on the canvas, and the whole
/// output for others. `popup_offset` is where the popup's parent lies on its
/// root.
pub fn popup_target(
    parent: PopupParent,
    visible_canvas: Rect,
    output_size: Size,
    popup_offset: Point,
) -> (r: Rect)
    ensures
        r == (match parent {
            PopupParent::Window(p) => moved_by(
                visible_canvas,
                -p.x - popup_offset.x,
                -p.y - popup_offset.y,
            ),
            PopupParent::CanvasLayer(p) => moved_by(
                visible_canvas,
                -p.x - popup_offset.x,
                -p.y - popup_offset.y,
            ),
            PopupParent::Layer(p) => moved_by(
                Rect { loc: Point { x: 0, y: 0 }, size: output_size },
                -p.x - popup_offset.x,
                -p.y - popup_offset.y,
            ),
        }),
{
    let (area, p): (Rect, Point) = match parent {
        PopupParent::Window(p) => (visible_canvas, p),
        PopupParent::CanvasLayer(p) => (visible_canvas, p),
        PopupParent::Layer(p) => (Rect { loc: Point { x: 0, y: 0 }, size: output_size }, p),
    };
    Rect {
        loc: Point {
            x: hold(area.loc.x as i64 - p.x as i64 - popup_offset.x as i64),
            y: hold(area.loc.y as i64 - p.y as i64 - popup_offset.y as i64),
        },
        size: area.size,
    }
}

// ── Requests of a window ─────────────────────────────────────────────

/// What a request for fullscreen or fit comes to.
#[derive(Clone, Copy, Debug, PartialEq, Eq, Structural)]
pub enum Requested {
    /// The window has not been placed: the request waits for its first sized
    /// commit.
    Defer,
    /// The request is met now.
    Now,
    /// There is no such window.
    Ignore,
}

/// What a request for fullscreen or fit comes to.
pub fn request(awaits_placement: bool, is_window: bool) -> (r: Requested)
    ensures
        r == (if awaits_placement {
            Requested::Defer
        } else if is_window {
            Requested::Now
        } else {
            Requested::Ignore
        }),
{
    if awaits_placement {
        Requested::Defer
    } else if is_window {
        Requested::Now
    } else {
        Requested::Ignore
    }
}

/// A window that asks to be moved or resized.
#[derive(Clone, Copy, Debug, PartialEq, Eq, Structural)]
pub struct Asking {
    pub is_widget: bool,
    pub is_window: bool,
    /// A button is held that was pressed on one of its client's surfaces.
    pub holds_button: bool,
    pub is_pinned: bool,
    pub has_location: bool,
    pub has_output: bool,
}

/// What a window's own request to be moved or resized comes to.
#[derive(Clone, Copy, Debug, PartialEq, Eq, Structural)]
pub enum Granted {
    Refused,
    /// In screen space.
    Pinned,
    /// On the canvas.
    Canvas,
}

/// What a window's request to be moved comes to. Always alone: clients do not
/// know about clusters.
pub fn move_request(a: &Asking) -> (r: Granted)
    ensures
        r == (if a.is_widget || !a.is_window || !a.holds_button {
            Granted::Refused
        } else if a.is_pinned {
            Granted::Pinned
        } else if a.has_location && a.has_output {
            Granted::Canvas
        } else {
            Granted::Refused
        }),
{
    if a.is_widget || !a.is_window || !a.holds_button {
        Granted::Refused
    } else if a.is_pinned {
        Granted::Pinned
    } else if a.has_location && a.has_output {
        Granted::Canvas
    } else {
        Granted::Refused
    }
}

/// What a window's request to be resized comes to. Decided before anything
/// changes, so that no resize state is left without a grab.
pub fn resize_request(a: &Asking) -> (r: Granted)
    ensures
        r == (if a.is_widget || !a.is_window || !a.holds_button || !a.has_location
            || !a.has_output {
            Granted::Refused
        } else if a.is_pinned {
            Granted::Pinned
        } else {
            Granted::Canvas
        }),
{
    if a.is_widget || !a.is_window || !a.holds_button || !a.has_location || !a.has_output {
        Granted::Refused
    } else if a.is_pinned {
        Granted::Pinned
    } else {
        Granted::Canvas
    }
}

/// Does a granted resize move the cluster?
pub fn resizes_cluster(granted: Granted, configured: bool) -> (r: bool)
    ensures
        r == (granted is Canvas && configured),
{
    match granted {
        Granted::Canvas => configured,
        _ => false,
    }
}

/// A directional cursor.
#[derive(Clone, Copy, Debug, PartialEq, Eq, Structural)]
pub enum CursorIcon {
    Default,
    NResize,
    SResize,
    WResize,
    EResize,
    NwResize,
    NeResize,
    SwResize,
    SeResize,
}

/// The cursor for a resize.
pub fn resize_cursor(edges: ResizeEdge) -> (r: CursorIcon)
    ensures
        r == (match edges {
            ResizeEdge::Top => CursorIcon::NResize,
            ResizeEdge::Bottom => CursorIcon::SResize,
            ResizeEdge::Left => CursorIcon::WResize,
            ResizeEdge::Right => CursorIcon::EResize,
            ResizeEdge::TopLeft => CursorIcon::NwResize,
            ResizeEdge::TopRight => CursorIcon::NeResize,
            ResizeEdge::BottomLeft => CursorIcon::SwResize,
            ResizeEdge::BottomRight => CursorIcon::SeResize,
            ResizeEdge::Nothing => CursorIcon::Default,
        }),
{
    match edges {
        ResizeEdge::Top => CursorIcon::NResize,
        ResizeEdge::Bottom => CursorIcon::SResize,
        ResizeEdge::Left => CursorIcon::WResize,
        ResizeEdge::Right => CursorIcon::EResize,
        ResizeEdge::TopLeft => CursorIcon::NwResize,
        ResizeEdge::TopRight => CursorIcon::NeResize,
        ResizeEdge::BottomLeft => CursorIcon::SwResize,
        ResizeEdge::BottomRight => CursorIcon::SeResize,
        ResizeEdge::Nothing => CursorIcon::Default,
    }
}

// ── Closing a window ─────────────────────────────────────────────────

/// The window that focus would follow when one closes: its parent, or rather a
/// modal child on top of that, else a related window from the focus history.
pub open spec fn follow_candidate(
    closing: u64,
    parent: Option<u64>,
    modal_child: Option<u64>,
    related: Option<u64>,
) -> Option<u64> {
    match parent {
        Some(p) => match modal_child {
            Some(m) if m != closing => Some(m),
            _ => Some(p),
        },
        None => related,
    }
}

/// The window that focus would follow when one closes.
pub fn choose_follow(
    closing: u64,
    parent: Option<u64>,
    modal_child: Option<u64>,
    related: Option<u64>,
) -> (r: Option<u64>)
    ensures
        r == follow_candidate(closing, parent, modal_child, related),
{
    match parent {
        Some(p) => match modal_child {
            Some(m) => if m != closing {
                Some(m)
            } else {
                Some(p)
            },
            None => Some(p),
        },
        None => related,
    }
}

/// The most recently focused window but the closing one.
pub open spec fn most_recent(history: Seq<u64>, closing: u64) -> Option<u64>
    decreases history.len(),
{
    if history.len() == 0 {
        None
    } else if history[0] != closing {
        Some(history[0])
    } else {
        most_recent(history.drop_first(), closing)
    }
}

/// The most recently focused window but the closing one.
pub fn find_most_recent(history: &Vec<u64>, closing: u64) -> (r: Option<u64>)
    ensures
        r == most_recent(history@, closing),
{
    let n: usize = history.len();
    let mut i: usize = 0;
    proof {
        assert(history@.skip(0) =~= history@);
    }
    while i < n
        invariant
            i <= n,
            n == history@.len(),
            most_recent(history@, closing) == most_recent(history@.skip(i as int), closing),
        decreases n - i,
    {
        proof {
            assert(history@.skip(i as int).drop_first() =~= history@.skip(i + 1));
        }
        if history[i] != closing {
            return Some(history[i]);
        }
        i = i + 1;
    }
    None
}

/// What the focus after a close depends on.
#[derive(Clone, Copy, Debug, PartialEq, Eq, Structural)]
pub struct Closing {
    /// The keyboard focus is on the closing window or what belongs to it.
    pub had_focus: bool,
    /// The closing window was focused last.
    pub was_last_focused: bool,
    /// Nothing has the keyboard focus.
    pub no_focus: bool,
    /// The window that focus would follow.
    pub follow: Option<u64>,
    /// That window is fully in view.
    pub follow_in_view: bool,
    /// The view may move to a window when another closes.
    pub auto_navigate: bool,
    /// The output that the closing window was on is known.
    pub has_home: bool,
    /// The most recently focused other window.
    pub recent: Option<u64>,
    /// That window is visible on the output of the closing one.
    pub recent_visible: bool,
    /// The nearest window that is visible there.
    pub nearest_visible: Option<u64>,
}

/// Where focus goes when a window closes.
#[derive(Clone, Copy, Debug, PartialEq, Eq, Structural)]
pub enum FocusAfter {
    /// It stays where it is.
    Keep,
    /// A window is raised and focused.
    Raise(u64),
    /// The view moves to a window.
    Navigate(u64),
    /// Nothing is focused.
    Clear,
}

/// Where focus goes when a window closes. It follows to a related window, and
/// the view moves there only if that is allowed and it is not in view; else to
/// the most recent window that is visible, else to the nearest one, and never
/// to what cannot be seen.
pub open spec fn focus_after(c: Closing) -> FocusAfter {
    let follow = if c.auto_navigate || c.follow_in_view {
        c.follow
    } else {
        None
    };
    if !(c.had_focus || c.was_last_focused || c.no_focus) {
        FocusAfter::Keep
    } else {
        match follow {
            Some(t) => if c.follow_in_view {
                FocusAfter::Raise(t)
            } else {
                FocusAfter::Navigate(t)
            },
            None => {
                let target = if !c.has_home {
                    None
                } else if c.recent is Some && c.recent_visible {
                    c.recent
                } else {
                    c.nearest_visible
                };
                match target {
                    Some(t) => FocusAfter::Raise(t),
                    None => FocusAfter::Clear,
                }
            },
        }
    }
}

/// Where focus goes when a window closes.
pub fn choose_focus(c: &Closing) -> (r: FocusAfter)
    ensures
        r == focus_after(*c),
{
    if !(c.had_focus || c.was_last_focused || c.no_focus) {
        return FocusAfter::Keep;
    }
    if c.auto_navigate || c.follow_in_view {
        if let Some(t) = c.follow {
            return if c.follow_in_view {
                FocusAfter::Raise(t)
            } else {
                FocusAfter::Navigate(t)
            };
        }
    }
    if !c.has_home {
        return FocusAfter::Clear;
    }
    if c.recent_visible {
        if let Some(t) = c.recent {
            return FocusAfter::Raise(t);
        }
    }
    match c.nearest_visible {
        Some(t) => FocusAfter::Raise(t),
        None => FocusAfter::Clear,
    }
}

/// The history without a window, in order.
pub open spec fn without(history: Seq<u64>, closing: u64) -> Seq<u64>
    decreases history.len(),
{
    if history.len() == 0 {
        history
    } else if history.last() == closing {
        without(history.drop_last(), closing)
    } else {
        without(history.drop_last(), closing).push(history.last())
    }
}

/// The cycle index after a close: within the history, or none where that is
/// empty.
pub open spec fn cycle_after(cycle: Option<usize>, len: nat) -> Option<int> {
    match cycle {
        None => None,
        Some(i) => if len == 0 {
            None
        } else if i < len {
            Some(i as int)
        } else {
            Some(len - 1)
        },
    }
}

/// Take a closing window out of the focus history, and keep the cycle index
/// within it.
pub fn forget_window(history: &mut Vec<u64>, cycle: Option<usize>, closing: u64) -> (r: Option<
    usize,
>)
    ensures
        final(history)@ == without(old(history)@, closing),
        match r {
            Some(i) => cycle_after(cycle, final(history)@.len()) == Some(i as int),
            None => cycle_after(cycle, final(history)@.len()) is None,
        },
{
    let n: usize = history.len();
    let mut kept: Vec<u64> = Vec::new();
    let mut i: usize = 0;
    while i < n
        invariant
            i <= n,
            n == history@.len(),
            history@ == old(history)@,
            kept@ == without(history@.take(i as int), closing),
        decreases n - i,
    {
        proof {
            assert(history@.take(i + 1).drop_last() =~= history@.take(i as int));
        }
        if history[i] != closing {
            kept.push(history[i]);
        }
        i = i + 1;
    }
    proof {
        assert(history@.take(n as int) =~= history@);
    }
    let len: usize = kept.len();
    *history = kept;
    match cycle {
        None => None,
        Some(i) => if len == 0 {
            None
        } else if i < len {
            Some(i)
        } else {
            Some(len - 1)
        },
    }
}

/// A closed window leaves the history, every other one stays, in order, and an
/// index for cycling always points into what is left.
pub proof fn lemma_closed_window_is_forgotten(
    history: Seq<u64>,
    cycle: Option<usize>,
    closing: u64,
    other: u64,
)
    ensures
        !without(history, closing).contains(closing),
        other != closing ==> without(history, closing).contains(other) == history.contains(other),
        without(history, closing).len() <= history.len(),
        cycle_after(cycle, without(history, closing).len()) matches Some(i) ==> 0 <= i < without(
            history,
            closing,
        ).len(),
    decreases history.len(),
{
    if history.len() > 0 {
        let front = history.drop_last();
        lemma_closed_window_is_forgotten(front, cycle, closing, other);
        let kept = without(front, closing);
        if history.last() != closing {
            let all = kept.push(history.last());
            assert forall|i: int| 0 <= i < all.len() implies all[i] != closing by {
                if i < kept.len() {
                    assert(kept.contains(kept[i]));
                }
            }
        }
        if other != closing {
            if history.contains(other) {
                let i = choose|i: int| 0 <= i < history.len() && history[i] == other;
                if i < front.len() {
                    assert(front[i] == other);
                    let j = choose|j: int| 0 <= j < kept.len() && kept[j] == other;
                    assert(history.last() != closing ==> kept.push(history.last())[j] == other);
                } else {
                    assert(kept.push(history.last())[kept.len() as int] == other);
                }
            }
            if without(history, closing).contains(other) {
                if history.last() == other {
                    assert(history[history.len() - 1] == other);
                } else {
                    let w = without(history, closing);
                    let j = choose|j: int| 0 <= j < w.len() && w[j] == other;
                    assert(kept.contains(other)) by {
                        assert(kept[j] == other);
                    }
                    let i = choose|i: int| 0 <= i < front.len() && front[i] == other;
                    assert(history[i] == other);
                }
            }
        }
    }
}

/// Focus never goes back to the closing window, and without leave to move the
/// view it only goes to windows that can be seen.
pub proof fn lemma_focus_goes_where_it_is_seen(c: Closing)
    ensures
        !c.auto_navigate ==> !(focus_after(c) is Navigate),
        focus_after(c) matches FocusAfter::Navigate(t) ==> c.follow == Some(t)
            && !c.follow_in_view,
        focus_after(c) matches FocusAfter::Raise(t) ==> (c.follow == Some(t) && c.follow_in_view)
            || (c.recent == Some(t) && c.recent_visible) || c.nearest_visible == Some(t),
        !(c.had_focus || c.was_last_focused || c.no_focus) ==> focus_after(c) is Keep,
{
}

/// Neither the window that focus follows nor the most recent one is the closing
/// one.
pub proof fn lemma_candidates_are_others(
    closing: u64,
    parent: Option<u64>,
    modal_child: Option<u64>,
    related: Option<u64>,
    history: Seq<u64>,
)
    requires
        parent != Some(closing),
        related != Some(closing),
    ensures
        follow_candidate(closing, parent, modal_child, related) != Some(closing),
        most_recent(history, closing) != Some(closing),
    decreases history.len(),
{
    if history.len() > 0 && history[0] == closing {
        lemma_candidates_are_others(closing, parent, modal_child, related, history.drop_first());
    }
}

} // verus!
