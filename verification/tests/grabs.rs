//! Resize, move and pan grabs.
use driftwm::config::{Config, ContinuousAction, Direction, Real};
use driftwm::geometry::{Point, Size};
use driftwm::grabs::move_grab::{
    entry_edge, placements, suppress_inhibited_edge, Edge, EdgeDistances, Member, MoveGrab,
    MoveRoute, Placement,
};
use driftwm::grabs::pan_grab::{PanGrab, PanRelease, PanRoute};
use driftwm::grabs::resize_grab::{
    constrain_to_ratio, drag_target, edge_code, edge_from_origin, handle_resize_commit, has_bottom,
    has_left, has_right, has_top, locks_ratio, resize_suspended, ResizeEdge, ResizeGrab,
    ResizeRoute, ResizeStart, ResizeState, SizeConstraints,
};
use driftwm::grabs::touch_fingers::ScreenPos;
use driftwm::grabs::touch_gesture_grab::{
    center_target, hand_off, output_px_per_mm, window_grab, CenterTarget, Contact, ContactKind,
    Effect, Focus, Handoff, Hit, Place, TouchGestureGrab, TouchSession, WindowGrab,
};
use driftwm::grabs::touch_recognizer::{PanelScale, Reading};

fn num_of(v: f64) -> Real {
    Real { bits: v.to_bits() }
}

fn at(x: f64, y: f64) -> ScreenPos {
    ScreenPos { x: num_of(x), y: num_of(y) }
}

fn size(w: i32, h: i32) -> Size {
    Size { w, h }
}

fn point(x: i32, y: i32) -> Point {
    Point { x, y }
}

// Initial 200x100: locked ratio 2.0 (width / height).
fn constrained(target: (i32, i32), edges: ResizeEdge) -> (i32, i32) {
    let ratio = 2.0;
    let s = constrain_to_ratio(
        size(target.0, target.1),
        size(200, 100),
        edges,
        (target.0 as f64 / ratio).round() as i32,
        (target.1 as f64 * ratio).round() as i32,
    );
    (s.w, s.h)
}

#[test]
fn horizontal_edge_drives_width() {
    assert_eq!(constrained((300, 100), ResizeEdge::Right), (300, 150));
    assert_eq!(constrained((80, 100), ResizeEdge::Left), (80, 40));
}

#[test]
fn vertical_edge_drives_height() {
    assert_eq!(constrained((200, 300), ResizeEdge::Bottom), (600, 300));
    assert_eq!(constrained((200, 40), ResizeEdge::Top), (80, 40));
}

#[test]
fn corner_drives_axis_with_larger_delta() {
    // Height moved farther (200 vs 60): height drives.
    assert_eq!(constrained((260, 300), ResizeEdge::BottomRight), (600, 300));
    // Width moved farther (200 vs 20): width drives.
    assert_eq!(constrained((400, 120), ResizeEdge::BottomRight), (400, 200));
}

#[test]
fn corner_drag_stays_continuous_across_the_ratio_ray() {
    let below = constrained((300, 199), ResizeEdge::BottomRight);
    let above = constrained((300, 201), ResizeEdge::BottomRight);
    assert_eq!(below, (398, 199));
    assert_eq!(above, (402, 201));
    assert!((above.0 - below.0).abs() <= 8);
}

#[test]
fn a_ratio_never_collapses_an_axis() {
    assert_eq!(
        constrain_to_ratio(size(0, 5), size(200, 100), ResizeEdge::Right, 0, 10),
        size(0, 1)
    );
    assert!(locks_ratio(true, size(1, 1)));
    assert!(!locks_ratio(true, size(0, 1)));
    assert!(!locks_ratio(false, size(1, 1)));
}

#[test]
fn constraints_clamp_each_axis() {
    let free = SizeConstraints::unconstrained();
    assert_eq!(free.clamp(-5, 7), (1, 7));
    let c = SizeConstraints { min: size(100, 0), max: size(300, 50) };
    assert_eq!(c.clamp(20, 70), (100, 50));
    assert_eq!(c.clamp(400, -3), (300, 1));
    assert_eq!(c.clamp(150, 40), (150, 40));
    let odd = SizeConstraints { min: size(100, 100), max: size(50, 50) };
    assert_eq!(odd.clamp(70, 70), (50, 50));
}

#[test]
fn edges_have_their_protocol_numbers() {
    for (e, n) in [
        (ResizeEdge::Nothing, 0),
        (ResizeEdge::Top, 1),
        (ResizeEdge::Bottom, 2),
        (ResizeEdge::Left, 4),
        (ResizeEdge::TopLeft, 5),
        (ResizeEdge::BottomLeft, 6),
        (ResizeEdge::Right, 8),
        (ResizeEdge::TopRight, 9),
        (ResizeEdge::BottomRight, 10),
    ] {
        assert_eq!(edge_code(e), n);
        assert_eq!(has_top(e), n & 1 != 0);
        assert_eq!(has_bottom(e), n & 2 != 0);
        assert_eq!(has_left(e), n & 4 != 0);
        assert_eq!(has_right(e), n & 8 != 0);
    }
}

#[test]
fn drags_grow_towards_their_edge() {
    let s = size(200, 100);
    assert_eq!(drag_target(s, ResizeEdge::TopLeft, 10, -20), Some(size(190, 120)));
    assert_eq!(drag_target(s, ResizeEdge::BottomRight, 10, -20), Some(size(210, 80)));
    assert_eq!(drag_target(s, ResizeEdge::Top, 10, 5), Some(size(200, 95)));
    assert_eq!(drag_target(size(i32::MAX, 1), ResizeEdge::Right, 1, 0), None);
}

fn start(edges: ResizeEdge) -> ResizeStart {
    ResizeStart {
        edges,
        initial_window_location: point(10, 20),
        initial_window_size: size(200, 100),
        initial_screen_pos: None,
        last_committed_size: size(200, 100),
    }
}

#[test]
fn a_commit_keeps_the_opposite_edge() {
    assert_eq!(handle_resize_commit(ResizeState::Idle, size(1, 1)), None);
    let c = handle_resize_commit(ResizeState::Resizing(start(ResizeEdge::TopLeft)), size(150, 130))
        .unwrap();
    assert_eq!(c.location, point(60, -10));
    assert!(!c.pinned && !c.settled && c.bump_blur);
    let again = handle_resize_commit(c.next, size(150, 130)).unwrap();
    assert_eq!(again.location, point(60, -10));
    assert!(!again.bump_blur);
    let mut s = start(ResizeEdge::BottomRight);
    s.initial_screen_pos = Some(point(3, 4));
    let last = handle_resize_commit(ResizeState::WaitingForLastCommit(s), size(300, 100)).unwrap();
    assert_eq!(last.location, point(3, 4));
    assert!(last.pinned && last.settled);
    assert_eq!(last.next, ResizeState::Idle);
}

fn grab(is_client: bool, edges: ResizeEdge) -> ResizeGrab {
    ResizeGrab {
        is_client,
        edges,
        initial_window_location: point(10, 20),
        initial_window_size: size(200, 100),
        last_window_size: size(200, 100),
        constraints: SizeConstraints::unconstrained(),
        pinned_initial_screen_pos: None,
        locked_ratio: false,
        touch_slot: None,
        touch_slots: 2,
    }
}

#[test]
fn a_resize_grab_progresses_and_ends() {
    let mut g = grab(false, ResizeEdge::Left);
    let p = g.progress(size(250, 100), false);
    assert!(p.size_progressed && p.bump_blur);
    assert_eq!(p.stand_in_location, Some(point(-40, 20)));
    let q = g.progress(size(250, 100), false);
    assert!(!q.size_progressed && !q.bump_blur);
    assert!(g.progress(size(250, 100), true).bump_blur);
    assert_eq!(g.finalize(ResizeState::Idle), ResizeState::Idle);
    let c = grab(true, ResizeEdge::Left);
    let mut carried = start(ResizeEdge::Left);
    carried.last_committed_size = size(7, 7);
    assert_eq!(
        c.finalize(ResizeState::Resizing(carried)),
        ResizeState::WaitingForLastCommit(carried)
    );
    assert!(!g.lift_finger());
    g.add_finger();
    assert!(!g.lift_finger());
    assert!(g.lift_finger());
    assert!(g.lift_finger());
}

#[test]
fn a_resize_grab_routes_motion() {
    let mut g = grab(true, ResizeEdge::Left);
    assert_eq!(g.route(false, true), ResizeRoute::PassThrough);
    assert_eq!(g.route(true, true), ResizeRoute::SnapBack);
    assert_eq!(g.route(true, false), ResizeRoute::Canvas);
    g.pinned_initial_screen_pos = Some(point(0, 0));
    assert_eq!(g.route(true, false), ResizeRoute::Pinned);
    g.is_client = false;
    assert_eq!(g.route(true, false), ResizeRoute::PassThrough);
}

#[test]
fn one_finger_drives_a_touch_resize() {
    let free = SizeConstraints::unconstrained();
    let (at, s) = (point(10, 20), size(200, 100));
    let mut g = ResizeGrab::new_touch(3, 2, ResizeEdge::TopLeft, at, s, free, None, true);
    assert!(g.locked_ratio && g.is_client && g.last_window_size == s);
    assert_eq!(g.touch_route(3, true), ResizeRoute::Canvas);
    assert_eq!(g.touch_route(4, true), ResizeRoute::PassThrough);
    assert_eq!(g.touch_route(3, false), ResizeRoute::PassThrough);
    g.pinned_initial_screen_pos = Some(point(0, 0));
    assert_eq!(g.touch_route(3, true), ResizeRoute::Pinned);
    g.pinned_initial_screen_pos = None;
    let ended = g.finalize(ResizeState::Idle);
    let c = handle_resize_commit(ended, size(150, 75)).unwrap();
    assert_eq!(c.location, point(60, 45));
    assert!(c.settled && c.next == ResizeState::Idle);
}

#[test]
fn a_held_size_is_bent_and_clamped() {
    let mut g = grab(true, ResizeEdge::Right);
    assert_eq!(g.held(size(300, 100), 150, 200), size(300, 100));
    assert!(g.snaps(true) && !g.snaps(false) && g.cascades());
    g.locked_ratio = true;
    assert_eq!(g.held(size(300, 100), 150, 200), size(300, 150));
    assert!(!g.snaps(true) && !g.cascades());
    g.constraints.max = size(0, 120);
    assert_eq!(g.held(size(300, 100), 150, 200), size(300, 120));
}

#[test]
fn suspended_windows_stop_at_their_minimum() {
    let (l, s) = (point(100, 100), size(200, 150));
    assert_eq!(
        resize_suspended(ResizeEdge::BottomRight, l, s, -500, 10),
        Some((l, size(120, 160)))
    );
    assert_eq!(
        resize_suspended(ResizeEdge::TopLeft, l, s, 500, -10),
        Some((point(180, 90), size(120, 160)))
    );
    assert_eq!(resize_suspended(ResizeEdge::Nothing, l, s, 5, 5), Some((l, s)));
}

#[test]
fn fingers_pick_an_edge() {
    let e = |x: f64, y: f64| edge_from_origin(num_of(x), num_of(y));
    assert_eq!(e(0.1, 0.1), ResizeEdge::TopLeft);
    assert_eq!(e(0.9, 0.1), ResizeEdge::TopRight);
    assert_eq!(e(0.1, 0.9), ResizeEdge::BottomLeft);
    assert_eq!(e(0.9, 0.9), ResizeEdge::BottomRight);
    assert_eq!(e(0.5, 0.1), ResizeEdge::Top);
    assert_eq!(e(0.5, 0.9), ResizeEdge::Bottom);
    assert_eq!(e(0.1, 0.5), ResizeEdge::Left);
    assert_eq!(e(0.9, 0.5), ResizeEdge::Right);
    assert_eq!(e(0.5, 0.5), ResizeEdge::BottomRight);
    assert_eq!(e(1.0 / 3.0, 2.0 / 3.0), ResizeEdge::BottomRight);
    assert_eq!(e(-0.5, 0.5), ResizeEdge::Left);
}

#[test]
fn the_entry_edge_faces_the_old_output() {
    let s = size(1000, 800);
    assert_eq!(entry_edge(point(0, 0), s, point(1000, 0), s), Edge::Left);
    assert_eq!(entry_edge(point(1000, 0), s, point(0, 0), s), Edge::Right);
    assert_eq!(entry_edge(point(0, -800), s, point(0, 0), s), Edge::Top);
    assert_eq!(entry_edge(point(0, 800), s, point(0, 0), s), Edge::Bottom);
    assert_eq!(entry_edge(point(0, 0), s, point(0, 0), s), Edge::Left);
}

#[test]
fn an_inhibited_edge_does_not_pan() {
    assert_eq!(suppress_inhibited_edge(Edge::Left, Some(at(-3.0, 0.0))), None);
    assert_eq!(suppress_inhibited_edge(Edge::Left, Some(at(-3.0, 2.0))), Some(at(0.0, 2.0)));
    assert_eq!(suppress_inhibited_edge(Edge::Left, Some(at(3.0, 2.0))), Some(at(3.0, 2.0)));
    assert_eq!(suppress_inhibited_edge(Edge::Bottom, Some(at(1.0, 2.0))), Some(at(1.0, 0.0)));
    assert_eq!(suppress_inhibited_edge(Edge::Top, Some(at(-0.0, -1.0))), None);
    assert_eq!(suppress_inhibited_edge(Edge::Top, None), None);
    let mut g = MoveGrab::new(point(1, 2));
    g.teleport(point(5, 6), Edge::Right);
    assert_eq!(g.initial_window_location, point(5, 6));
    let d = |right: f64| EdgeDistances {
        left: num_of(500.0),
        right: num_of(right),
        top: num_of(500.0),
        bottom: num_of(500.0),
    };
    let v = Some(at(4.0, 0.0));
    assert_eq!(g.effective_velocity(v, &d(10.0), &num_of(50.0)), None);
    assert_eq!(g.inhibited_edge, Some(Edge::Right));
    assert_eq!(g.effective_velocity(v, &d(50.0), &num_of(50.0)), v);
    assert_eq!(g.inhibited_edge, None);
    assert_eq!(g.effective_velocity(v, &d(10.0), &num_of(50.0)), v);
}

#[test]
fn a_move_grab_routes_motion() {
    let g = MoveGrab::new(point(0, 0));
    assert_eq!(g.route(true, true, false), MoveRoute::Park);
    assert_eq!(g.route(false, false, false), MoveRoute::Park);
    assert_eq!(g.route(false, true, true), MoveRoute::Teleport);
    assert_eq!(g.route(false, true, false), MoveRoute::Follow);
    assert_eq!(MoveGrab::new_pinned().route(false, true, true), MoveRoute::Pinned);
    let t = MoveGrab::new_touch(point(0, 0), 3, 2);
    assert_eq!(t.touch_route(4, true), MoveRoute::PassThrough);
    assert_eq!(t.touch_route(3, false), MoveRoute::Park);
    assert_eq!(t.touch_route(3, true), MoveRoute::Follow);
    let mut p = MoveGrab::new_pinned_touch(3, 1);
    assert_eq!(p.touch_route(3, true), MoveRoute::Pinned);
    assert_eq!(p.lift_finger(9), (false, true));
    p.add_finger();
    p.add_finger();
    assert_eq!(p.lift_finger(3), (true, false));
}

#[test]
fn only_whole_moves_are_noted() {
    let mut g = MoveGrab::new(point(0, 0));
    assert!(g.note_mapped(point(1, 1)));
    assert!(!g.note_mapped(point(1, 1)));
    assert!(g.note_mapped(point(1, 2)));
}

#[test]
fn a_cluster_is_put_down_below_the_moved_window() {
    let member = |id: u64, x: i32, y: i32| Member { id, offset: point(x, y), is_alive: true };
    let closed = Member { is_alive: false, ..member(4, 9, 9) };
    assert_eq!(
        placements(7, point(10, 20), &vec![member(1, 1, -1), closed, member(2, -5, 0)]),
        Some(vec![
            Placement { id: 1, location: point(11, 19) },
            Placement { id: 2, location: point(5, 20) },
            Placement { id: 7, location: point(10, 20) },
        ])
    );
    assert_eq!(placements(7, point(i32::MAX, 0), &vec![member(1, 1, 0)]), None);
}

#[test]
fn a_click_on_empty_canvas_clears_focus() {
    let mut g = PanGrab::new(true);
    assert_eq!(g.route(true), PanRoute::SnapBack);
    assert_eq!(g.route(false), PanRoute::Pan);
    g.motion(&num_of(24.9));
    assert_eq!(g.button(true), None);
    assert_eq!(g.button(false), Some(PanRelease { clear_focus: true }));
    g.motion(&num_of(25.0));
    g.motion(&num_of(0.0));
    assert_eq!(g.button(false), Some(PanRelease { clear_focus: false }));
    assert_eq!(PanGrab::new(false).button(false), Some(PanRelease { clear_focus: false }));
}

#[test]
fn panels_have_a_plausible_density() {
    let m = Some(size(1920, 1080));
    assert_eq!(output_px_per_mm(m, Some(num_of(6.0)), Some(num_of(3.0))), num_of(6.0));
    assert_eq!(output_px_per_mm(m, Some(num_of(20.0)), Some(num_of(3.0))), num_of(3.0));
    assert_eq!(output_px_per_mm(m, None, Some(num_of(1.4))), num_of(4.0));
    assert_eq!(output_px_per_mm(m, Some(num_of(f64::NAN)), None), num_of(4.0));
    assert_eq!(output_px_per_mm(None, Some(num_of(6.0)), None), num_of(4.0));
    assert_eq!(output_px_per_mm(Some(size(0, 1080)), Some(num_of(6.0)), None), num_of(4.0));
}

#[test]
fn drags_are_handed_to_windows() {
    assert_eq!(
        window_grab(ContinuousAction::MoveSnappedWindows),
        Some(WindowGrab::Move { cluster: true })
    );
    assert_eq!(
        window_grab(ContinuousAction::ResizeWindow),
        Some(WindowGrab::Resize { snapped: false })
    );
    assert_eq!(window_grab(ContinuousAction::PanViewport), None);
    let widget = Some(Hit { is_widget: true, is_canvas_window: false });
    let window = Some(Hit { is_widget: false, is_canvas_window: true });
    assert_eq!(hand_off(widget, window, true), Handoff::Refuse);
    assert_eq!(hand_off(window, None, true), Handoff::Pinned);
    assert_eq!(hand_off(None, window, true), Handoff::Canvas { cluster: true });
    assert_eq!(hand_off(None, widget, true), Handoff::Refuse);
    assert_eq!(hand_off(None, None, false), Handoff::Refuse);
    assert_eq!(center_target(window, None), Some(CenterTarget::Under));
    assert_eq!(center_target(widget, window), Some(CenterTarget::Focused));
    assert_eq!(center_target(None, widget), None);
}

fn resting() -> Reading {
    let z = at(0.0, 0.0);
    Reading {
        centroid: z,
        spread: num_of(0.0),
        moved: num_of(0.0),
        centroid_delta: z,
        spread_scale: num_of(0.0),
        spread_ratio: num_of(0.0),
        spread_delta: num_of(0.0),
        start_delta: num_of(0.0),
        nav_cumulative: z,
        direction: Direction::Up,
        swipe_progress: num_of(0.0),
        pinch_scale: num_of(1.0),
        pinch_progress: num_of(0.0),
    }
}

fn touch_grab() -> TouchGestureGrab {
    TouchGestureGrab::new(PanelScale {
        dead_zone: num_of(8.0),
        min_spread: num_of(12.0),
        pinch_delta: num_of(12.0),
    })
}

const SURFACE: u64 = 77;

fn contact_down(slot: i32, x: f64, on_screen: bool) -> Contact {
    Contact {
        slot,
        time: 10 * slot as u32,
        kind: ContactKind::Down {
            location: at(100.0 + x, 0.0),
            screen: at(x, 0.0),
            delta: at(100.0, 0.0),
            focus: Some(Focus { target: SURFACE, origin: at(0.0, 0.0) }),
            over_screen_space: on_screen,
            fullscreen: Some(5),
        },
    }
}

fn contact_up(slot: i32, time: u32) -> Contact {
    Contact { slot, time, kind: ContactKind::Up }
}

#[test]
fn an_escalation_revokes_the_other_contacts() {
    // One and two fingers pass to the app; three claim the sequence.
    let mut cfg = Config::default();
    cfg.touch_gestures.anywhere.entries.clear();
    cfg.touch_gestures.on_canvas.entries.clear();
    cfg.touch_gestures.on_window.entries.clear();
    let mut g = touch_grab();
    let mut s = TouchSession::new();
    let r = resting();
    let first = contact_down(0, 1.0, true);
    assert_eq!(
        g.dispatch(&mut s, &cfg, &first, &r),
        vec![Effect::Down {
            slot: 0,
            focus: Some(Focus { target: SURFACE, origin: at(0.0, 0.0) }),
            location: at(101.0, 0.0),
            time: 0,
        }]
    );
    g.dispatch(&mut s, &cfg, &contact_down(1, 2.0, false), &r);
    let bound = Config::default();
    assert_eq!(
        g.dispatch(&mut s, &bound, &contact_down(2, 3.0, false), &r),
        vec![
            Effect::Motion {
                slot: 0,
                focus: None,
                place: Place::Shifted { at: at(1.0, 0.0), offset: at(100.0, 0.0) },
                time: 20,
            },
            Effect::Motion { slot: 1, focus: None, place: Place::Under(at(2.0, 0.0)), time: 20 },
            Effect::CancelApp,
            Effect::Down { slot: 2, focus: None, location: at(103.0, 0.0), time: 20 },
            Effect::ExitFullscreen(5),
        ]
    );
    assert_eq!(s.holdback, None);
}

#[test]
fn withheld_events_are_delivered_in_order() {
    let cfg = Config::default();
    let mut g = touch_grab();
    let mut s = TouchSession::new();
    let r = resting();
    assert!(g.dispatch(&mut s, &cfg, &contact_down(1, 2.0, true), &r).is_empty());
    let moved = Contact {
        slot: 1,
        time: 12,
        kind: ContactKind::Motion { location: at(104.0, 0.0), screen: at(4.0, 0.0) },
    };
    assert!(g.dispatch(&mut s, &cfg, &moved, &r).is_empty());
    assert_eq!(s.holdback.as_ref().map(|b| b.len()), Some(2));
    assert_eq!(
        g.dispatch(&mut s, &cfg, &contact_up(1, 15), &r),
        vec![
            Effect::Down {
                slot: 1,
                focus: Some(Focus { target: SURFACE, origin: at(0.0, 0.0) }),
                location: at(102.0, 0.0),
                time: 10,
            },
            Effect::Motion {
                slot: 1,
                focus: None,
                place: Place::Shifted { at: at(4.0, 0.0), offset: at(100.0, 0.0) },
                time: 12,
            },
            Effect::Up { slot: 1, time: 15 },
            Effect::Frame,
            Effect::Unset,
        ]
    );
    assert_eq!(s.holdback, None);
    assert!(g.slots.is_empty());
}

#[test]
fn a_claim_drops_what_is_withheld() {
    let cfg = Config::default();
    let mut g = touch_grab();
    let mut s = TouchSession::new();
    let r = resting();
    for slot in 0..3 {
        g.dispatch(&mut s, &cfg, &contact_down(slot, 1.0 + slot as f64, false), &r);
    }
    assert_eq!(s.holdback, None);
    let effects = g.dispatch(&mut s, &cfg, &contact_down(3, 4.0, false), &r);
    assert_eq!(
        effects,
        vec![
            Effect::Down { slot: 3, focus: None, location: at(104.0, 0.0), time: 30 },
            Effect::ExitFullscreen(5),
        ]
    );
    assert_eq!(s.pre_exited, Some(5));
    s.unset();
    assert_eq!(s.pre_exited, None);
}

#[test]
fn replayed_events_pass_through() {
    let cfg = Config::default();
    let mut g = touch_grab();
    let mut s = TouchSession::new();
    s.replaying = true;
    assert_eq!(
        g.dispatch(&mut s, &cfg, &contact_up(4, 9), &resting()),
        vec![Effect::Up { slot: 4, time: 9 }]
    );
    assert!(g.slots.is_empty() && g.core.points.is_empty());
    let mut out = Vec::new();
    s.flush(&mut out);
    assert!(out.is_empty());
}
