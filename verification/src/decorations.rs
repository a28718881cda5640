//! Server-drawn frames: where the title bar, the close button and the resize
//! borders are, and how a title bar is laid out.
use vstd::prelude::*;

use crate::config::decoration::TitleAlign;
use crate::geometry;
use crate::geometry::{hold, Point, Rect, Size};
use crate::grabs::resize_grab::ResizeEdge;
use crate::text::text_eq;

verus! {

/// Right padding so the close button doesn't sit flush with the title bar edge.
pub const CLOSE_BTN_RIGHT_PAD: i32 = 8;

/// Gap between the title text and the close button (logical px).
pub const TITLE_TEXT_GAP: i32 = 6;

/// The whole canvas pixel that a position lies in: its coordinates rounded
/// down.
#[derive(Clone, Copy, Debug, PartialEq, Eq, Structural)]
pub struct Spot {
    pub x: i64,
    pub y: i64,
}

/// What the pointer is over in frame space.
#[derive(Clone, Copy, Debug, PartialEq, Eq, Structural)]
pub enum DecorationHit {
    TitleBar,
    CloseButton,
    ResizeBorder(ResizeEdge),
    /// Suspended-window body outside the centered label: focus and raise.
    Body,
    /// Suspended-window centered label: relaunch the app.
    Label,
}

/// Key of a frame: a client window's surface, or a suspended window, by number.
#[derive(Clone, Copy, Debug, PartialEq, Eq, Structural, Hash)]
pub enum DecorationKey {
    Surface(u64),
    Suspended(u64),
}

// ── Hit testing ──────────────────────────────────────────────────────

/// Left edge of the close button.
pub open spec fn button_left(window_loc: Point, width: int, bar_height: int) -> int {
    window_loc.x + width - bar_height - CLOSE_BTN_RIGHT_PAD
}

/// Does the close button hold a spot? It is a square at the right of the title
/// bar, above the window.
pub open spec fn on_close_button(pos: Spot, window_loc: Point, width: int, bar_height: int) -> bool {
    button_left(window_loc, width, bar_height) <= pos.x < button_left(window_loc, width, bar_height)
        + bar_height && window_loc.y - bar_height <= pos.y < window_loc.y
}

/// Does the title bar, without the close button, hold a spot?
pub open spec fn on_title_bar(pos: Spot, window_loc: Point, width: int, bar_height: int) -> bool {
    window_loc.x <= pos.x < button_left(window_loc, width, bar_height) && window_loc.y - bar_height
        <= pos.y < window_loc.y
}

/// Close button hit area: a square on the right side of the title bar.
pub fn close_button_rect(window_loc: Point, width: i32, bar_height: i32) -> (r: Rect)
    ensures
        r.loc.x == geometry::held(button_left(window_loc, width as int, bar_height as int)),
        r.loc.y == geometry::held(window_loc.y - bar_height),
        r.size.w == bar_height,
        r.size.h == bar_height,
{
    let x: i64 = window_loc.x as i64 + width as i64 - bar_height as i64
        - CLOSE_BTN_RIGHT_PAD as i64;
    let y: i64 = window_loc.y as i64 - bar_height as i64;
    Rect { loc: Point { x: hold(x), y: hold(y) }, size: Size { w: bar_height, h: bar_height } }
}

/// Is a spot within the title bar (excluding the close button)?
pub fn title_bar_contains(pos: Spot, window_loc: Point, width: i32, bar_height: i32) -> (r: bool)
    ensures
        r == on_title_bar(pos, window_loc, width as int, bar_height as int),
{
    let right: i64 = window_loc.x as i64 + width as i64 - bar_height as i64
        - CLOSE_BTN_RIGHT_PAD as i64;
    let top: i64 = window_loc.y as i64 - bar_height as i64;
    window_loc.x as i64 <= pos.x && pos.x < right && top <= pos.y && pos.y < window_loc.y as i64
}

/// Is a spot within the close button?
pub fn close_button_contains(pos: Spot, window_loc: Point, width: i32, bar_height: i32) -> (r: bool)
    ensures
        r == on_close_button(pos, window_loc, width as int, bar_height as int),
{
    let left: i64 = window_loc.x as i64 + width as i64 - bar_height as i64
        - CLOSE_BTN_RIGHT_PAD as i64;
    let top: i64 = window_loc.y as i64 - bar_height as i64;
    left <= pos.x && pos.x < left + bar_height as i64 && top <= pos.y && pos.y
        < window_loc.y as i64
}

/// The title bar and the close button cover disjoint regions.
pub proof fn lemma_bar_and_button_are_disjoint(
    pos: Spot,
    window_loc: Point,
    width: int,
    bar_height: int,
)
    ensures
        !(on_title_bar(pos, window_loc, width, bar_height) && on_close_button(
            pos,
            window_loc,
            width,
            bar_height,
        )),
{
}

/// Left, top, right and bottom of a window together with its title bar.
pub open spec fn frame_of(window_loc: Point, size: Size, bar_height: int) -> (int, int, int, int) {
    (
        window_loc.x as int,
        window_loc.y - bar_height,
        window_loc.x + size.w,
        window_loc.y + size.h,
    )
}

/// Does a frame hold a spot?
pub open spec fn in_frame(pos: Spot, window_loc: Point, size: Size, bar_height: int) -> bool {
    let (left, top, right, bottom) = frame_of(window_loc, size, bar_height);
    left <= pos.x < right && top <= pos.y < bottom
}

/// Does a frame, widened by its borders, hold a spot?
pub open spec fn near_frame(
    pos: Spot,
    window_loc: Point,
    size: Size,
    bar_height: int,
    border: int,
) -> bool {
    let (left, top, right, bottom) = frame_of(window_loc, size, bar_height);
    left - border <= pos.x < right + border && top - border <= pos.y < bottom + border
}

/// The edge that a spot on the border around a frame drags.
pub open spec fn border_edge(
    pos: Spot,
    window_loc: Point,
    size: Size,
    bar_height: int,
    border: int,
) -> Option<ResizeEdge> {
    let (left, top, right, bottom) = frame_of(window_loc, size, bar_height);
    if !near_frame(pos, window_loc, size, bar_height, border) || in_frame(
        pos,
        window_loc,
        size,
        bar_height,
    ) {
        None
    } else if pos.x < left && pos.y < top {
        Some(ResizeEdge::TopLeft)
    } else if pos.x >= right && pos.y < top {
        Some(ResizeEdge::TopRight)
    } else if pos.x < left && pos.y >= bottom {
        Some(ResizeEdge::BottomLeft)
    } else if pos.x >= right && pos.y >= bottom {
        Some(ResizeEdge::BottomRight)
    } else if pos.x < left {
        Some(ResizeEdge::Left)
    } else if pos.x >= right {
        Some(ResizeEdge::Right)
    } else if pos.y < top {
        Some(ResizeEdge::Top)
    } else {
        Some(ResizeEdge::Bottom)
    }
}

/// Hit-test the invisible resize borders around a window and its title bar.
pub fn resize_edge_at(
    pos: Spot,
    window_loc: Point,
    window_size: Size,
    bar_height: i32,
    border_width: i32,
) -> (r: Option<ResizeEdge>)
    ensures
        r == border_edge(pos, window_loc, window_size, bar_height as int, border_width as int),
{
    let bw: i64 = border_width as i64;
    let left: i64 = window_loc.x as i64;
    let right: i64 = window_loc.x as i64 + window_size.w as i64;
    let top: i64 = window_loc.y as i64 - bar_height as i64;
    let bottom: i64 = window_loc.y as i64 + window_size.h as i64;
    if pos.x < left - bw || pos.x >= right + bw || pos.y < top - bw || pos.y >= bottom + bw {
        return None;
    }
    if pos.x >= left && pos.x < right && pos.y >= top && pos.y < bottom {
        return None;
    }
    let in_left: bool = pos.x < left;
    let in_right: bool = pos.x >= right;
    let in_top: bool = pos.y < top;
    let in_bottom: bool = pos.y >= bottom;
    if in_left && in_top {
        Some(ResizeEdge::TopLeft)
    } else if in_right && in_top {
        Some(ResizeEdge::TopRight)
    } else if in_left && in_bottom {
        Some(ResizeEdge::BottomLeft)
    } else if in_right && in_bottom {
        Some(ResizeEdge::BottomRight)
    } else if in_left {
        Some(ResizeEdge::Left)
    } else if in_right {
        Some(ResizeEdge::Right)
    } else if in_top {
        Some(ResizeEdge::Top)
    } else {
        Some(ResizeEdge::Bottom)
    }
}

/// The borders lie around the frame: a spot of the window, of its title bar or
/// its close button drags no edge, and neither does one outside the borders;
/// every spot between does.
pub proof fn lemma_borders_surround_the_frame(
    pos: Spot,
    window_loc: Point,
    size: Size,
    bar_height: int,
    border: int,
)
    requires
        size.w >= 0,
        size.h >= 0,
        bar_height >= 0,
    ensures
        border_edge(pos, window_loc, size, bar_height, border) is Some == (near_frame(
            pos,
            window_loc,
            size,
            bar_height,
            border,
        ) && !in_frame(pos, window_loc, size, bar_height)),
        on_title_bar(pos, window_loc, size.w as int, bar_height) ==> border_edge(
            pos,
            window_loc,
            size,
            bar_height,
            border,
        ) is None,
        on_close_button(pos, window_loc, size.w as int, bar_height) && size.w >= bar_height
            + CLOSE_BTN_RIGHT_PAD ==> border_edge(
            pos,
            window_loc,
            size,
            bar_height,
            border,
        ) is None,
{
}

// ── What a title bar shows ───────────────────────────────────────────

/// What a title bar was last rendered for.
#[derive(Debug, PartialEq, Eq)]
pub struct WindowDecorationOf<S> {
    pub width: i32,
    pub focused: bool,
    pub close_hovered: bool,
    pub scale: i32,
    pub title: S,
    /// Draw the screen-pinned indicator dot near the left edge.
    pub pinned: bool,
    /// Fonts were loaded at the last render: a textless bar renders again once
    /// they are.
    pub fonts_ready: bool,
}

pub type WindowDecoration = WindowDecorationOf<String>;

impl View for WindowDecorationOf<String> {
    type V = WindowDecorationOf<Seq<char>>;

    open spec fn view(&self) -> WindowDecorationOf<Seq<char>> {
        WindowDecorationOf {
            width: self.width,
            focused: self.focused,
            close_hovered: self.close_hovered,
            scale: self.scale,
            title: self.title@,
            pinned: self.pinned,
            fonts_ready: self.fonts_ready,
        }
    }
}

impl WindowDecorationOf<String> {
    /// A bar with a placeholder scale and no title: the first frame's update
    /// renders it for its output.
    pub fn new(width: i32, focused: bool, fonts_ready: bool) -> (r: WindowDecoration)
        ensures
            r@ == (WindowDecorationOf {
                width,
                focused,
                close_hovered: false,
                scale: 1i32,
                title: ""@,
                pinned: false,
                fonts_ready,
            }),
    {
        WindowDecorationOf {
            width,
            focused,
            close_hovered: false,
            scale: 1,
            title: "".to_owned(),
            pinned: false,
            fonts_ready,
        }
    }

    /// Take new values. True if any changed, so that the bar has to be rendered
    /// again.
    pub fn update(
        &mut self,
        width: i32,
        focused: bool,
        pinned: bool,
        scale: i32,
        title: &str,
        fonts_ready: bool,
    ) -> (r: bool)
        ensures
            final(self)@ == (WindowDecorationOf {
                width,
                focused,
                close_hovered: old(self)@.close_hovered,
                scale,
                title: title@,
                pinned,
                fonts_ready,
            }),
            r == (final(self)@ != old(self)@),
    {
        if width == self.width && focused == self.focused && pinned == self.pinned && scale
            == self.scale && text_eq(title, self.title.as_str()) && fonts_ready
            == self.fonts_ready {
            return false;
        }
        self.width = width;
        self.focused = focused;
        self.pinned = pinned;
        self.scale = scale;
        self.fonts_ready = fonts_ready;
        self.title = title.to_owned();
        true
    }
}

// ── Laying out a title bar ───────────────────────────────────────────

/// Where the parts of a title bar are, in the pixels of its buffer.
#[derive(Clone, Copy, Debug, PartialEq, Eq, Structural)]
pub struct TitleBarLayout {
    /// Pixels of the buffer per logical pixel.
    pub scale: i64,
    pub width: i64,
    pub height: i64,
    /// Left edge of the close button.
    pub button_x: i64,
    /// The cross of the close button: from its top left to its bottom right.
    pub cross_x0: i64,
    pub cross_y0: i64,
    pub cross_x1: i64,
    pub cross_y1: i64,
    /// Where the indicator dot starts.
    pub dot_x: i64,
    /// Where the title text may start and has to end.
    pub text_left: i64,
    pub text_right: i64,
}

/// A number, but at least one.
pub open spec fn at_least_one(n: int) -> int {
    if n >= 1 {
        n
    } else {
        1
    }
}

/// Can any text width be taken off this position?
pub open spec fn fits_less_width(x: int) -> bool {
    i64::MIN < x - i32::MAX && x - i32::MIN <= i64::MAX
}

/// Can any text width be taken off the bar and off the right end of its text?
pub open spec fn takes_any_text(l: TitleBarLayout) -> bool {
    fits_less_width(l.width as int) && fits_less_width(l.text_right as int)
}

/// Where the parts of a title bar are. The left inset matches the close
/// button's effective right inset (its padding and the margin of its cross), so
/// that the bar looks symmetric; a pinned window's dot pushes the title clear.
pub open spec fn layout_of(
    width: int,
    bar_height: int,
    scale: int,
    margin: int,
    pinned: bool,
    dot: int,
    l: TitleBarLayout,
) -> bool {
    let s = at_least_one(scale);
    &&& l.scale == s
    &&& l.width == at_least_one(width) * s
    &&& l.height == bar_height * s
    &&& l.button_x == l.width - l.height - CLOSE_BTN_RIGHT_PAD * s
    &&& l.cross_x0 == l.button_x + margin
    &&& l.cross_y0 == margin
    &&& l.cross_x1 == l.button_x + l.height - margin
    &&& l.cross_y1 == l.height - margin
    &&& l.dot_x == CLOSE_BTN_RIGHT_PAD * s + margin
    &&& l.text_left == (if pinned {
        l.dot_x + dot + TITLE_TEXT_GAP * s
    } else {
        l.dot_x as int
    })
    &&& l.text_right == l.button_x - TITLE_TEXT_GAP * s
}

/// Lay out a title bar. `margin` is the inset of the cross in its button, `dot`
/// the width of the indicator dot, both in pixels of the buffer.
pub fn lay_out(
    width: i32,
    bar_height: i32,
    scale: i32,
    margin: i32,
    pinned: bool,
    dot: i32,
) -> (l: TitleBarLayout)
    ensures
        layout_of(
            width as int,
            bar_height as int,
            scale as int,
            margin as int,
            pinned,
            dot as int,
            l,
        ),
        takes_any_text(l),
{
    let s: i64 = if scale >= 1 {
        scale as i64
    } else {
        1
    };
    let w1: i64 = if width >= 1 {
        width as i64
    } else {
        1
    };
    let bh: i64 = bar_height as i64;
    proof {
        assert(1 <= w1 * s <= 2147483647 * 2147483647) by (nonlinear_arith)
            requires
                1 <= w1 <= 2147483647,
                1 <= s <= 2147483647,
        ;
        assert(-2147483648 * 2147483647 <= bh * s <= 2147483647 * 2147483647)
            by (nonlinear_arith)
            requires
                -2147483648 <= bh <= 2147483647,
                1 <= s <= 2147483647,
        ;
        assert(w1 * s - bh * s <= 4294967295 * 2147483647) by (nonlinear_arith)
            requires
                1 <= w1 <= 2147483647,
                -2147483648 <= bh <= 2147483647,
                1 <= s <= 2147483647,
        ;
    }
    let w: i64 = w1 * s;
    let h: i64 = bh * s;
    let pad: i64 = CLOSE_BTN_RIGHT_PAD as i64 * s;
    let gap: i64 = TITLE_TEXT_GAP as i64 * s;
    let m: i64 = margin as i64;
    let button_x: i64 = w - h - pad;
    let dot_x: i64 = pad + m;
    TitleBarLayout {
        scale: s,
        width: w,
        height: h,
        button_x,
        cross_x0: button_x + m,
        cross_y0: m,
        cross_x1: button_x + h - m,
        cross_y1: h - m,
        dot_x,
        text_left: if pinned {
            dot_x + dot as i64 + gap
        } else {
            dot_x
        },
        text_right: button_x - gap,
    }
}

/// Where a title of a width starts: at the left, or in the middle of the bar but
/// clear of the close button and of the left padding.
pub open spec fn title_start(l: TitleBarLayout, align: TitleAlign, text_width: int) -> int {
    match align {
        TitleAlign::Left => l.text_left as int,
        TitleAlign::Center => geometry::larger(
            geometry::smaller(
                geometry::half(l.width - text_width),
                l.text_right - text_width,
            ),
            l.text_left as int,
        ),
    }
}

/// Where a title starts; none where there is no room or no title.
pub fn title_origin(l: &TitleBarLayout, align: TitleAlign, title_is_empty: bool, text_width: i32) -> (r:
    Option<i64>)
    requires
        takes_any_text(*l),
    ensures
        match r {
            Some(x) => l.text_right > l.text_left && !title_is_empty && x == title_start(
                *l,
                align,
                text_width as int,
            ),
            None => l.text_right <= l.text_left || title_is_empty,
        },
{
    if l.text_right <= l.text_left || title_is_empty {
        return None;
    }
    match align {
        TitleAlign::Left => Some(l.text_left),
        TitleAlign::Center => {
            let room: i64 = l.width - text_width as i64;
            let middle: i64 = if room >= 0 {
                room / 2
            } else {
                -((-room) / 2)
            };
            let limit: i64 = l.text_right - text_width as i64;
            let x: i64 = if middle <= limit {
                middle
            } else {
                limit
            };
            if x >= l.text_left {
                Some(x)
            } else {
                Some(l.text_left)
            }
        },
    }
}

/// A title that fits between its limits stays clear of the close button and of
/// what is left of it.
pub proof fn lemma_title_stays_clear(l: TitleBarLayout, align: TitleAlign, text_width: int)
    requires
        0 <= text_width <= l.text_right - l.text_left,
    ensures
        l.text_left <= title_start(l, align, text_width),
        title_start(l, align, text_width) + text_width <= l.text_right,
{
}

/// The title bar and the close button share the strip above the window, as high
/// as the bar: the button is as wide as it is high and ends 8 before the right
/// side of the window, and the bar is what is left of it.
pub proof fn lemma_strip_above_the_window(pos: Spot, window_loc: Point, width: int, bar_height: int)
    requires
        bar_height + 8 <= width,
        0 <= bar_height,
    ensures
        ({
            let (x, y) = (pos.x - window_loc.x, window_loc.y - pos.y);
            let bar = on_title_bar(pos, window_loc, width, bar_height);
            let button = on_close_button(pos, window_loc, width, bar_height);
            &&& bar || button <==> 0 < y <= bar_height && 0 <= x && x + 8 < width
            &&& button <==> 0 < y <= bar_height && 8 < width - x <= bar_height + 8
        }),
{
}

/// A spot on the border drags the sides of the window that it lies beyond: the
/// left or the right one, the top one with the title bar or the bottom one, and
/// both at a corner.
pub proof fn lemma_border_drags_its_own_side(
    pos: Spot,
    window_loc: Point,
    size: Size,
    bar_height: int,
    border: int,
)
    requires
        size.w >= 0,
        size.h >= 0,
        bar_height >= 0,
    ensures
        border_edge(pos, window_loc, size, bar_height, border) matches Some(e) ==> {
            let (x, y) = (pos.x - window_loc.x, pos.y - window_loc.y);
            &&& (e is Left || e is TopLeft || e is BottomLeft) == (x < 0)
            &&& (e is Right || e is TopRight || e is BottomRight) == (x >= size.w)
            &&& (e is Top || e is TopLeft || e is TopRight) == (y < -bar_height)
            &&& (e is Bottom || e is BottomLeft || e is BottomRight) == (y >= size.h)
            &&& -border <= x < size.w + border
            &&& -bar_height - border <= y < size.h + border
        },
        border_edge(pos, window_loc, size, bar_height, border) is None ==> {
            let (x, y) = (pos.x - window_loc.x, pos.y - window_loc.y);
            ||| 0 <= x < size.w && -bar_height <= y < size.h
            ||| !(-border <= x < size.w + border)
            ||| !(-bar_height - border <= y < size.h + border)
        },
{
}

/// In a drawn title bar the button is a square that ends 8 before the right side
/// and the cross lies in the middle of it; the dot is as far from the left side
/// as the cross is from the right one; and the title keeps 6 away from the
/// button and from the dot of a pinned window, each times the scale.
pub proof fn lemma_drawn_title_bar(
    width: int,
    bar_height: int,
    scale: int,
    margin: int,
    pinned: bool,
    dot: int,
    l: TitleBarLayout,
)
    requires
        layout_of(width, bar_height, scale, margin, pinned, dot, l),
    ensures
        scale >= 1 ==> l.scale == scale,
        scale < 1 ==> l.scale == 1,
        width >= 1 ==> l.width == width * l.scale,
        l.height == bar_height * l.scale,
        l.width - (l.button_x + l.height) == 8 * l.scale,
        l.cross_x0 - l.button_x == margin && l.button_x + l.height - l.cross_x1 == margin,
        l.cross_y0 == margin && l.height - l.cross_y1 == margin,
        l.dot_x == l.width - l.cross_x1,
        l.button_x - l.text_right == 6 * l.scale,
        !pinned ==> l.text_left == l.dot_x,
        pinned ==> l.text_left - (l.dot_x + dot) == 6 * l.scale,
{
}

/// A title at the left starts where titles may start. A centered one has as much
/// room on its left as on its right, within one, unless it would leave the room
/// for titles; in that case it is moved no farther than it has to be.
pub proof fn lemma_title_is_centered(l: TitleBarLayout, text_width: int)
    requires
        0 <= text_width <= l.text_right - l.text_left,
        text_width <= l.width,
    ensures
        title_start(l, TitleAlign::Left, text_width) == l.text_left,
        ({
            let start = title_start(l, TitleAlign::Center, text_width);
            let (before, after) = (start, l.width - start - text_width);
            ||| -1 <= after - before <= 1
            ||| start == l.text_left && before > after
            ||| start + text_width == l.text_right && before < after
        }),
{
}

} // verus!
