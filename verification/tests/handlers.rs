//! What the shell protocols' handlers decide.
use driftwm::config::Real;
use driftwm::config::raw::ConfigFile;
use driftwm::config::window_rules::WindowRuleFile;
use driftwm::config::{Config, DecorationMode, KeysymTable, WindowPlacement};
use driftwm::geometry::{Point, Rect, Size};
use driftwm::grabs::resize_grab::ResizeEdge;
use driftwm::handlers::compositor::{
    canvas_layer_position, carves_corners, commit_steps, confirms_lock, corner_carve,
    count_commit, decoration_mode_to_wire, move_icon, negotiated_mode, recenter_due, reflow,
    reflow_anchor, rule_effects, CommitFacts, CommitStep, Deferred, FirstCommit, Follow, Growth,
    Neighbor, Pending, Placed, RectangleKind, Reflow, RuleEffects, Tiled, WireMode,
};
use driftwm::handlers::layer_shell::{
    existing_count, layer_destroyed, new_layer_surface, CanvasLayer, LayerFocus,
};
use driftwm::handlers::xdg_shell::{
    choose_focus, choose_follow, find_most_recent, forget_window, move_request, popup_grab,
    popup_grab_allowed, popup_target, request, resize_cursor, resize_request, resizes_cluster,
    Asking, Closing, CursorIcon, FocusAfter, Granted, LiveGrab, PopupGrab, PopupParent, Requested,
    SessionLock,
};

fn rect(x: i32, y: i32, w: i32, h: i32) -> Rect {
    Rect { loc: Point { x, y }, size: Size { w, h } }
}

fn num_of(v: f64) -> Real {
    Real { bits: v.to_bits() }
}

#[test]
fn corners_are_carved_from_the_whole_region() {
    let region = vec![
        (RectangleKind::Add, rect(0, 0, 50, 100)),
        (RectangleKind::Subtract, rect(-500, 0, 5, 5)),
        (RectangleKind::Add, rect(50, 0, 50, 100)),
    ];
    assert_eq!(
        corner_carve(&region, 8),
        vec![
            rect(0, 0, 10, 10),
            rect(90, 0, 10, 10),
            rect(90, 90, 10, 10),
            rect(0, 90, 10, 10),
        ]
    );
    assert!(corner_carve(&region, 48).is_empty());
    assert!(corner_carve(&vec![(RectangleKind::Subtract, rect(0, 0, 99, 99))], 1).is_empty());
    assert!(carves_corners(false, None, DecorationMode::Client, true));
    assert!(!carves_corners(true, None, DecorationMode::Client, true));
    assert!(!carves_corners(false, None, DecorationMode::Client, false));
    assert!(!carves_corners(false, Some(DecorationMode::Bare), DecorationMode::Client, true));
}

#[test]
fn negotiation_keeps_the_full_mode() {
    let n = negotiated_mode;
    assert_eq!(n(Some(DecorationMode::Bare), Some(WireMode::ClientSide), DecorationMode::Server), DecorationMode::Bare);
    assert_eq!(n(None, None, DecorationMode::Minimal), DecorationMode::Minimal);
    assert_eq!(n(None, Some(WireMode::ServerSide), DecorationMode::Minimal), DecorationMode::Minimal);
    assert_eq!(n(None, Some(WireMode::ClientSide), DecorationMode::Minimal), DecorationMode::Client);
    assert_eq!(n(None, Some(WireMode::ServerSide), DecorationMode::Client), DecorationMode::Server);
    assert_eq!(decoration_mode_to_wire(DecorationMode::Bare), WireMode::ServerSide);
    assert_eq!(decoration_mode_to_wire(DecorationMode::Client), WireMode::ClientSide);
}

const NO_RULE: RuleEffects = RuleEffects {
    decoration: None,
    size: None,
    position: None,
    widget: false,
    pinned_to_screen: false,
    fullscreen: None,
};

fn commit() -> FirstCommit {
    FirstCommit {
        size: Size { w: 200, h: 100 },
        is_fullscreen: false,
        is_fit: false,
        has_toplevel: true,
        already_sized: false,
        already_applied: false,
        has_decoration: false,
        rule: None,
        negotiated: None,
        default_mode: DecorationMode::Server,
        placement: WindowPlacement::Center,
        reset_zoom: true,
        zoom: num_of(1.0),
        pin_output: Some(Size { w: 1920, h: 1080 }),
        parent: None,
        background: None,
        at_cursor: Some(Point { x: 1, y: 2 }),
        automatic: Some(Point { x: 3, y: 4 }),
        at_center: Point { x: 5, y: 6 },
        pending: Pending { center: true, size: false, fullscreen: false, fit: false },
    }
}

#[test]
fn a_plain_window_is_centered_and_followed() {
    let p = commit().plan(false);
    assert!(p.keep_restore_size && p.arrived && p.create_decoration && p.pending_ssd);
    assert_eq!(
        p.placed,
        Placed::OnCanvas {
            pos: Point { x: 5, y: 6 },
            cascade: true,
            activate: true,
            by_cursor: false,
            in_background: false,
        }
    );
    assert_eq!(p.wire, None);
    assert_eq!(p.tiled, Tiled::Hint(Some(Size { w: 200, h: 100 })));
    assert_eq!(p.follow, Follow::Navigate { reset_zoom: true });
    assert_eq!(p.deferred, Deferred::Nothing);
    assert!(!p.pending.center);
}

#[test]
fn a_window_without_a_size_waits() {
    let mut c = commit();
    c.size = Size { w: 0, h: 100 };
    let p = c.plan(false);
    assert!(!p.arrived && p.pending.center);
    assert_eq!(p.placed, Placed::Stay);
    assert_eq!(p.follow, Follow::Nothing);
}

#[test]
fn a_rule_size_is_forced_once() {
    let mut c = commit();
    c.rule = Some(RuleEffects { size: Some((640, 480)), ..NO_RULE });
    let p = c.plan(false);
    assert_eq!(p.placed, Placed::ForceSize(Size { w: 640, h: 480 }));
    assert!(!p.arrived && p.pending.center && p.pending.size);
    assert_eq!(p.tiled, Tiled::Hint(None));
    c.pending = p.pending;
    c.size = Size { w: 640, h: 480 };
    let q = c.plan(false);
    assert!(q.arrived && !q.pending.size);
    c.pending.size = false;
    c.has_toplevel = false;
    assert_eq!(c.plan(false).placed, Placed::Stay);
}

#[test]
fn a_rule_pins_a_window_in_sight() {
    let mut c = commit();
    c.rule = Some(RuleEffects {
        pinned_to_screen: true,
        position: Some((1000, 1000)),
        ..NO_RULE
    });
    let p = c.plan(false);
    assert_eq!(
        p.placed,
        Placed::Pin { screen_pos: Point { x: 1720, y: 0 }, activate: true }
    );
    assert_eq!(p.follow, Follow::Raise);
    c.pin_output = None;
    assert_eq!(
        c.plan(false).placed,
        Placed::OnCanvas {
            pos: Point { x: 900, y: -1050 },
            cascade: false,
            activate: true,
            by_cursor: false,
            in_background: false,
        }
    );
}

#[test]
fn widgets_keep_quiet() {
    let mut c = commit();
    c.rule = Some(RuleEffects { widget: true, ..NO_RULE });
    let p = c.plan(false);
    assert!(p.widget_effects);
    assert_eq!(p.tiled, Tiled::Unset);
    assert_eq!(p.follow, Follow::Nothing);
    assert!(matches!(p.placed, Placed::OnCanvas { activate: false, .. }));
    c.already_applied = true;
    assert!(!c.plan(false).widget_effects);
}

#[test]
fn placement_goes_by_rule_parent_background_and_config() {
    let mut c = commit();
    c.placement = WindowPlacement::Cursor;
    assert!(matches!(c.plan(false).placed, Placed::OnCanvas { pos: Point { x: 1, y: 2 }, by_cursor: true, .. }));
    assert_eq!(c.plan(false).follow, Follow::Raise);
    c.zoom = num_of(0.5);
    assert_eq!(c.plan(false).follow, Follow::Navigate { reset_zoom: true });
    c.placement = WindowPlacement::Auto;
    assert!(matches!(c.plan(false).placed, Placed::OnCanvas { pos: Point { x: 3, y: 4 }, .. }));
    c.background = Some(Point { x: 7, y: 8 });
    assert_eq!(
        c.plan(false).placed,
        Placed::OnCanvas {
            pos: Point { x: 7, y: 8 },
            cascade: false,
            activate: false,
            by_cursor: false,
            in_background: true,
        }
    );
    assert_eq!(c.plan(false).follow, Follow::Nothing);
    c.parent = Some((Point { x: 100, y: 100 }, Size { w: 400, h: 300 }));
    assert!(matches!(c.plan(false).placed, Placed::OnCanvas { pos: Point { x: 200, y: 200 }, cascade: false, .. }));
    c.rule = Some(RuleEffects { position: Some((0, 0)), ..NO_RULE });
    assert!(matches!(c.plan(false).placed, Placed::OnCanvas { pos: Point { x: -100, y: -50 }, .. }));
    c.is_fit = true;
    assert_eq!(c.plan(false).placed, Placed::Stay);
}

#[test]
fn deferred_requests_are_met_on_arrival() {
    let mut c = commit();
    c.pending.fit = true;
    let p = c.plan(false);
    assert_eq!(p.deferred, Deferred::Fit);
    assert_eq!(p.follow, Follow::Nothing);
    assert!(!p.pending.fit);
    c.rule = Some(RuleEffects { fullscreen: Some(true), ..NO_RULE });
    let q = c.plan(false);
    assert_eq!(q.deferred, Deferred::Fullscreen);
    assert!(q.pending.fit && !q.pending.fullscreen);
}

#[test]
fn explicit_rules_overwrite_the_wire() {
    let mut c = commit();
    c.negotiated = Some(WireMode::ClientSide);
    assert_eq!(c.plan(false).mode, DecorationMode::Client);
    assert!(!c.plan(false).pending_ssd && !c.plan(false).create_decoration);
    c.rule = Some(RuleEffects { decoration: Some(DecorationMode::Bare), ..NO_RULE });
    let p = c.plan(false);
    assert_eq!(p.wire, Some(WireMode::ServerSide));
    assert_eq!(p.tiled, Tiled::Unset);
    c.has_toplevel = false;
    assert_eq!(c.plan(false).wire, None);
    assert_eq!(c.plan(false).tiled, Tiled::Silent);
}

#[test]
fn later_commits_decide_little() {
    assert_eq!(count_commit(1), 2);
    assert_eq!(count_commit(u64::MAX), 0);
    assert!(confirms_lock(true, true) && !confirms_lock(false, true) && !confirms_lock(true, false));
    assert_eq!(
        move_icon(Point { x: 1, y: 2 }, Some(Point { x: 3, y: -4 })),
        Point { x: 4, y: -2 }
    );
    assert_eq!(move_icon(Point { x: 1, y: 2 }, None), Point { x: 1, y: 2 });
    let s = Size { w: 5, h: 5 };
    assert!(!recenter_due(s, s));
    assert!(recenter_due(s, Size { w: 6, h: 5 }));
    assert!(!recenter_due(Size { w: 0, h: 5 }, s));
    assert_eq!(canvas_layer_position(None, (10, 20), Size { w: 0, h: 4 }), None);
    assert_eq!(
        canvas_layer_position(None, (10, 20), Size { w: 3, h: 4 }),
        Some(Point { x: 9, y: -22 })
    );
    assert_eq!(
        canvas_layer_position(Some(Point { x: 1, y: 1 }), (10, 20), Size { w: 3, h: 4 }),
        Some(Point { x: 1, y: 1 })
    );
}

#[test]
fn a_window_that_grew_over_its_neighbors_moves() {
    let g = Growth {
        idle: true,
        is_fullscreen: false,
        is_fit: false,
        is_fill: false,
        settled: Some((num_of(101.0), num_of(51.0))),
        footprint: Some((num_of(300.0), num_of(50.0))),
    };
    let near = Neighbor { id: 4, is_adjacent: true, overlaps: false };
    let hit = Neighbor { id: 9, is_adjacent: true, overlaps: true };
    let far = Neighbor { id: 1, is_adjacent: false, overlaps: false };
    let all = vec![far, near, hit];
    assert_eq!(reflow_anchor(&g, &all), Some(4));
    assert_eq!(reflow_anchor(&Growth { idle: false, ..g }, &all), None);
    assert_eq!(reflow_anchor(&Growth { is_fullscreen: true, ..g }, &all), None);
    assert_eq!(reflow_anchor(&Growth { is_fit: true, ..g }, &all), None);
    assert_eq!(reflow_anchor(&Growth { is_fill: true, ..g }, &all), None);
    assert_eq!(reflow_anchor(&Growth { settled: None, ..g }, &all), None);
    let same = Some((num_of(101.0), num_of(50.0)));
    assert_eq!(reflow_anchor(&Growth { footprint: same, ..g }, &all), None);
    assert_eq!(reflow_anchor(&g, &vec![far, near]), None);
    assert_eq!(reflow_anchor(&g, &vec![Neighbor { is_adjacent: false, ..hit }]), None);
    let p = Point { x: 1, y: 2 };
    let (hidden, whole) = (num_of(0.5), num_of(0.999));
    assert_eq!(reflow(None, None, true, &hidden), Reflow::Stay);
    assert_eq!(reflow(Some(p), Some(p), true, &hidden), Reflow::Stay);
    assert_eq!(reflow(Some(p), None, true, &hidden), Reflow::MoveAndFollow(p));
    assert_eq!(reflow(Some(p), None, true, &whole), Reflow::Move(p));
    assert_eq!(reflow(Some(p), None, false, &hidden), Reflow::Move(p));
}

#[test]
fn commits_take_their_steps_in_order() {
    let f = CommitFacts {
        carves: true,
        is_drag_icon: false,
        lock_pending: true,
        is_lock_surface: false,
        is_sync: false,
        has_window: true,
        is_unplaced: true,
        recenters: false,
        on_canvas_layer: false,
        on_layer: false,
        configured: false,
        is_toplevel: true,
    };
    assert_eq!(
        commit_steps(&f),
        vec![
            CommitStep::CarveCorners,
            CommitStep::ImportBuffer,
            CommitStep::WindowCommit,
            CommitStep::PlaceWindow,
            CommitStep::ResizeCommit,
            CommitStep::Reflow,
            CommitStep::CommitPopups,
            CommitStep::Configure,
        ]
    );
    assert_eq!(
        commit_steps(&CommitFacts { is_lock_surface: true, ..f }),
        vec![CommitStep::CarveCorners, CommitStep::ImportBuffer, CommitStep::ConfirmLock]
    );
    let layer = CommitFacts {
        carves: false,
        has_window: false,
        on_canvas_layer: true,
        is_drag_icon: true,
        ..f
    };
    assert_eq!(
        commit_steps(&layer),
        vec![
            CommitStep::ImportBuffer,
            CommitStep::MoveIcon,
            CommitStep::SettleCanvasLayer,
            CommitStep::Configure,
            CommitStep::UpdateFocus,
            CommitStep::CommitPopups,
        ]
    );
    assert_eq!(
        commit_steps(&CommitFacts {
            on_canvas_layer: false,
            on_layer: true,
            configured: true,
            is_drag_icon: false,
            ..layer
        }),
        vec![
            CommitStep::ImportBuffer,
            CommitStep::ArrangeLayers,
            CommitStep::UpdateFocus,
            CommitStep::CommitPopups,
        ]
    );
}

#[test]
fn popup_grabs_follow_focus_and_lock() {
    let (locks, windows) = (vec![9], vec![1, 2]);
    let allowed = |l, f, root| popup_grab_allowed(l, &locks, &windows, f, root);
    assert!(allowed(SessionLock::Unlocked, Some(1), 1));
    assert!(!allowed(SessionLock::Unlocked, Some(1), 2));
    assert!(!allowed(SessionLock::Unlocked, None, 2));
    assert!(allowed(SessionLock::Unlocked, None, 5));
    assert!(!allowed(SessionLock::Locked, Some(1), 1));
    assert!(allowed(SessionLock::Pending, None, 9));
    let idle = LiveGrab { is_grabbed: false, has_serial: false, has_previous: false };
    let other = LiveGrab { is_grabbed: true, has_serial: false, has_previous: false };
    let nested = LiveGrab { is_grabbed: true, has_serial: false, has_previous: true };
    assert_eq!(popup_grab(false, false, false, idle, idle), PopupGrab::Dismiss);
    assert_eq!(popup_grab(true, false, false, idle, nested), PopupGrab::Full);
    assert_eq!(popup_grab(true, false, false, other, idle), PopupGrab::Ungrab);
    assert_eq!(popup_grab(true, true, false, other, idle), PopupGrab::PointerOnly);
    assert_eq!(popup_grab(true, false, true, idle, other), PopupGrab::Ungrab);
}

#[test]
fn popups_unfold_in_what_is_visible() {
    let visible = rect(100, 200, 1922, 1082);
    let out = Size { w: 1920, h: 1080 };
    let off = Point { x: 3, y: 4 };
    let p = Point { x: 150, y: 260 };
    assert_eq!(
        popup_target(PopupParent::Window(p), visible, out, off),
        rect(-53, -64, 1922, 1082)
    );
    assert_eq!(
        popup_target(PopupParent::CanvasLayer(p), visible, out, off),
        rect(-53, -64, 1922, 1082)
    );
    assert_eq!(
        popup_target(PopupParent::Layer(p), visible, out, off),
        rect(-153, -264, 1920, 1080)
    );
}

#[test]
fn requests_wait_or_are_met() {
    assert_eq!(request(true, true), Requested::Defer);
    assert_eq!(request(false, true), Requested::Now);
    assert_eq!(request(false, false), Requested::Ignore);
    let a = Asking {
        is_widget: false,
        is_window: true,
        holds_button: true,
        is_pinned: false,
        has_location: true,
        has_output: true,
    };
    assert_eq!(move_request(&a), Granted::Canvas);
    assert_eq!(move_request(&Asking { is_pinned: true, has_output: false, ..a }), Granted::Pinned);
    assert_eq!(move_request(&Asking { is_widget: true, ..a }), Granted::Refused);
    assert_eq!(move_request(&Asking { has_location: false, ..a }), Granted::Refused);
    assert_eq!(resize_request(&a), Granted::Canvas);
    assert_eq!(resize_request(&Asking { is_pinned: true, ..a }), Granted::Pinned);
    assert_eq!(
        resize_request(&Asking { is_pinned: true, has_output: false, ..a }),
        Granted::Refused
    );
    assert_eq!(resize_request(&Asking { holds_button: false, ..a }), Granted::Refused);
    assert!(resizes_cluster(Granted::Canvas, true));
    assert!(!resizes_cluster(Granted::Pinned, true));
    assert_eq!(resize_cursor(ResizeEdge::TopLeft), CursorIcon::NwResize);
    assert_eq!(resize_cursor(ResizeEdge::Bottom), CursorIcon::SResize);
    assert_eq!(resize_cursor(ResizeEdge::Nothing), CursorIcon::Default);
}

#[test]
fn focus_follows_a_closed_window() {
    assert_eq!(choose_follow(1, Some(2), Some(3), Some(4)), Some(3));
    assert_eq!(choose_follow(1, Some(2), Some(1), Some(4)), Some(2));
    assert_eq!(choose_follow(1, Some(2), None, None), Some(2));
    assert_eq!(choose_follow(1, None, Some(3), Some(4)), Some(4));
    assert_eq!(find_most_recent(&vec![1, 5, 6], 1), Some(5));
    assert_eq!(find_most_recent(&vec![1], 1), None);
    let c = Closing {
        had_focus: true,
        was_last_focused: false,
        no_focus: false,
        follow: Some(7),
        follow_in_view: false,
        auto_navigate: true,
        has_home: true,
        recent: Some(5),
        recent_visible: true,
        nearest_visible: Some(6),
    };
    assert_eq!(choose_focus(&c), FocusAfter::Navigate(7));
    assert_eq!(choose_focus(&Closing { follow_in_view: true, ..c }), FocusAfter::Raise(7));
    let quiet = Closing { auto_navigate: false, ..c };
    assert_eq!(choose_focus(&quiet), FocusAfter::Raise(5));
    assert_eq!(choose_focus(&Closing { recent_visible: false, ..quiet }), FocusAfter::Raise(6));
    assert_eq!(
        choose_focus(&Closing { recent: None, nearest_visible: None, ..quiet }),
        FocusAfter::Clear
    );
    assert_eq!(choose_focus(&Closing { has_home: false, ..quiet }), FocusAfter::Clear);
    assert_eq!(choose_focus(&Closing { had_focus: false, ..c }), FocusAfter::Keep);
    assert_eq!(
        choose_focus(&Closing { had_focus: false, no_focus: true, ..quiet }),
        FocusAfter::Raise(5)
    );
}

#[test]
fn a_closed_window_is_forgotten() {
    let mut h = vec![3, 1, 2, 1];
    assert_eq!(forget_window(&mut h, Some(3), 1), Some(1));
    assert_eq!(h, vec![3, 2]);
    assert_eq!(forget_window(&mut h, None, 3), None);
    assert_eq!(forget_window(&mut h, Some(0), 2), None);
    assert!(h.is_empty());
}

fn layer_config() -> Config {
    let mut raw = ConfigFile::empty();
    let rule = |x: i32| WindowRuleFile {
        app_id: Some("clock".to_string()),
        title: None,
        position: Some((x, 0)),
        size: None,
        fullscreen: None,
        focus_on_open: None,
        widget: false,
        pinned_to_screen: false,
        suspend_on_close: None,
        preserve_aspect_ratio: false,
        decoration: None,
        blur: None,
        opacity: None,
        pass_keys: None,
        border_width: None,
        border_color: None,
        border_color_focused: None,
        corner_radius: None,
        shadow: None,
        output: None,
        layer_order: None,
    };
    raw.window_rules = Some(vec![rule(1), rule(2)]);
    Config::from_raw_collect(&raw, None, &KeysymTable { entries: vec![] }).0
}

#[test]
fn layers_of_one_namespace_take_successive_rules() {
    let cfg = layer_config();
    let mut layers: Vec<CanvasLayer> = vec![];
    assert!(new_layer_surface(&cfg, &mut layers, 10, "clock"));
    assert!(!new_layer_surface(&cfg, &mut layers, 11, "bar"));
    assert!(new_layer_surface(&cfg, &mut layers, 12, "clock"));
    assert!(!new_layer_surface(&cfg, &mut layers, 13, "clock"));
    assert_eq!(existing_count(&layers, "clock"), 2);
    let places: Vec<(u64, (i32, i32))> = layers.iter().map(|l| (l.id, l.rule_position)).collect();
    assert_eq!(places, vec![(10, (1, 0)), (12, (2, 0))]);
    let (left, focus) = layer_destroyed(layers, 10, Some(10), &vec![4, 5]);
    assert_eq!(left.len(), 1);
    assert_eq!(focus, LayerFocus::To(Some(4)));
    assert_eq!(layer_destroyed(left, 99, Some(12), &vec![]).1, LayerFocus::Keep);
    assert_eq!(layer_destroyed(vec![], 9, Some(9), &vec![]).1, LayerFocus::To(None));
}

#[test]
fn applied_rules_have_their_effects() {
    let cfg = layer_config();
    let applied = cfg.resolve_window_rules("clock", "").unwrap();
    let e = rule_effects(&applied);
    assert_eq!(e.position, Some((2, 0)));
    assert!(!e.widget);
}
