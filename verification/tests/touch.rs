//! The multi-finger touch-gesture classifier, driven with measured positions.
use driftwm::config::raw::ConfigFile;
use driftwm::config::{
    Action, Config, ContextBindings, ContinuousAction, Direction, GestureConfigEntry,
    GestureThresholds, KeysymTable,
    Real,
};
use driftwm::grabs::touch_fingers::ScreenPos;
use driftwm::grabs::touch_plan::Plan;
use driftwm::grabs::touch_recognizer::{
    choose_grab, Decision, PanelScale, Reading, TapOutcome, TouchInput, TouchKind, TouchRecognizer,
    DEAD_ZONE_MM, MIN_SPREAD_MM, NAV_SWIPE_MM, PINCH_MIN_DELTA_MM,
};

/// Nested-backend fallback density (~96 dpi). Fixed so thresholds are concrete:
/// dead zone 8px, nav-swipe 60px, min spread / min pinch delta 12px.
const PX_PER_MM: f64 = 4.0;

fn num_of(v: f64) -> Real {
    Real { bits: v.to_bits() }
}

fn num(r: Real) -> f64 {
    f64::from_bits(r.bits)
}

fn pos(p: (f64, f64)) -> ScreenPos {
    ScreenPos { x: num_of(p.0), y: num_of(p.1) }
}

fn xy(p: ScreenPos) -> (f64, f64) {
    (num(p.x), num(p.y))
}

fn panel() -> PanelScale {
    PanelScale {
        dead_zone: num_of(DEAD_ZONE_MM as f64 * PX_PER_MM),
        min_spread: num_of(MIN_SPREAD_MM as f64 * PX_PER_MM),
        pinch_delta: num_of(PINCH_MIN_DELTA_MM as f64 * PX_PER_MM),
    }
}

fn direction_of(v: (f64, f64)) -> Direction {
    let octant = (v.1.atan2(v.0) / std::f64::consts::FRAC_PI_4).round() as i32;
    match octant.rem_euclid(8) {
        0 => Direction::Right,
        1 => Direction::DownRight,
        2 => Direction::Down,
        3 => Direction::DownLeft,
        4 => Direction::Left,
        5 => Direction::UpLeft,
        6 => Direction::Up,
        _ => Direction::UpRight,
    }
}

/// What the fingers measure after an event.
fn measure(core: &TouchRecognizer, th: &GestureThresholds, input: &TouchInput) -> Reading {
    let points: Vec<(f64, f64)> = core.positions_after(input).into_iter().map(xy).collect();
    let n = points.len() as f64;
    let centroid = if points.is_empty() {
        (0.0, 0.0)
    } else {
        let sum = points.iter().fold((0.0, 0.0), |a, p| (a.0 + p.0, a.1 + p.1));
        (sum.0 / n, sum.1 / n)
    };
    let spread = if points.len() < 2 {
        0.0
    } else {
        let sum: f64 = points
            .iter()
            .map(|p| {
                let (dx, dy) = (p.0 - centroid.0, p.1 - centroid.1);
                (dx * dx + dy * dy).sqrt()
            })
            .sum();
        sum / n
    };
    let s = &core.state;
    let (start, last, nav) = (xy(s.start_centroid), xy(s.last_centroid), xy(s.nav_cumulative));
    let (last_spread, start_spread) = (num(s.last_spread), num(s.start_spread));
    let (mx, my) = (centroid.0 - start.0, centroid.1 - start.1);
    let delta = (centroid.0 - last.0, centroid.1 - last.1);
    let nav_cumulative = match input.kind {
        TouchKind::Motion { .. } => (nav.0 - delta.0, nav.1 - delta.1),
        _ => nav,
    };
    let swipe_dist = (nav_cumulative.0.powi(2) + nav_cumulative.1.powi(2)).sqrt();
    let scale = if start_spread > 1.0 { spread / start_spread } else { 1.0 };
    let pinch_progress = if scale < 1.0 {
        let margin = 1.0 - num(th.pinch_in_scale);
        if margin > 0.0 { (1.0 - scale) / margin } else { 0.0 }
    } else {
        let margin = num(th.pinch_out_scale) - 1.0;
        if margin > 0.0 { (scale - 1.0) / margin } else { 0.0 }
    };
    Reading {
        centroid: pos(centroid),
        spread: num_of(spread),
        moved: num_of((mx * mx + my * my).sqrt()),
        centroid_delta: pos(delta),
        spread_scale: num_of(spread / last_spread),
        spread_ratio: num_of((spread / last_spread - 1.0).abs()),
        spread_delta: num_of((spread - last_spread).abs()),
        start_delta: num_of((spread - start_spread).abs()),
        nav_cumulative: pos(nav_cumulative),
        direction: direction_of(nav_cumulative),
        swipe_progress: num_of(swipe_dist / (NAV_SWIPE_MM as f64 * PX_PER_MM)),
        pinch_scale: num_of(scale),
        pinch_progress: num_of(pinch_progress),
    }
}

fn pt(x: f64, y: f64) -> ScreenPos {
    pos((x, y))
}

fn down(s: u32, x: f64, y: f64, app_owns: bool, t: u32) -> TouchInput {
    TouchInput {
        time_ms: t,
        slot: s as i32,
        kind: TouchKind::Down {
            location: pt(x, y),
            app_owns_hit: app_owns,
        },
    }
}

fn motion(s: u32, x: f64, y: f64, t: u32) -> TouchInput {
    TouchInput {
        time_ms: t,
        slot: s as i32,
        kind: TouchKind::Motion { location: pt(x, y) },
    }
}

fn up(s: u32, t: u32) -> TouchInput {
    TouchInput {
        time_ms: t,
        slot: s as i32,
        kind: TouchKind::Up,
    }
}

fn cfg_default() -> Config {
    Config::default()
}

/// All `[touch]` tiers unbound: every gesture is the app's.
fn cfg_empty() -> Config {
    let mut cfg = Config::default();
    cfg.touch_gestures = ContextBindings::empty();
    cfg
}

/// The settings of a `[touch.anywhere]` table.
fn from_toml(toml_str: &str) -> Config {
    let t: toml::Table = toml::from_str(toml_str).unwrap();
    let anywhere = t["touch"]["anywhere"].as_table().unwrap();
    let mut raw = ConfigFile::empty();
    raw.touch.anywhere = Some(
        anywhere
            .iter()
            .map(|(k, v)| (k.clone(), v.as_str().unwrap().to_string()))
            .collect(),
    );
    let (cfg, errors) = Config::from_raw_collect(&raw, None, &KeysymTable { entries: vec![] });
    assert!(errors.iter().all(|e| !e.contains("touch")), "{errors:?}");
    cfg
}

fn copy(d: &Decision) -> Decision {
    match d {
        Decision::Forward => Decision::Forward,
        Decision::Consume => Decision::Consume,
        Decision::Hold => Decision::Hold,
        Decision::Flush => Decision::Flush,
        Decision::Discard => Decision::Discard,
        Decision::CancelAppSequence => Decision::CancelAppSequence,
        Decision::PreExitFullscreen => Decision::PreExitFullscreen,
        Decision::Pan(p) => Decision::Pan(*p),
        Decision::Zoom { scale, anchor } => Decision::Zoom { scale: *scale, anchor: *anchor },
        Decision::FireThreshold(a) => Decision::FireThreshold(a.duplicate()),
        Decision::StartWindowGrab { action } => Decision::StartWindowGrab { action: *action },
        Decision::Momentum => Decision::Momentum,
        Decision::Tap { focus_at, set_last_tap, outcome } => Decision::Tap {
            focus_at: *focus_at,
            set_last_tap: *set_last_tap,
            outcome: match outcome {
                TapOutcome::Fire(a) => TapOutcome::Fire(a.duplicate()),
                TapOutcome::DeferCenter { delay_ms } => TapOutcome::DeferCenter { delay_ms: *delay_ms },
                TapOutcome::Nothing => TapOutcome::Nothing,
            },
        },
        Decision::UnsetGrab => Decision::UnsetGrab,
    }
}

/// Owns the recognizer plus the holdback buffer and the last tap, and mirrors
/// these from the decisions, as whoever carries them out does.
struct Harness<'a> {
    core: TouchRecognizer,
    cfg: &'a Config,
    holdback: Option<Vec<TouchInput>>,
    last_tap: Option<u32>,
    decisions: Vec<Decision>,
}

impl<'a> Harness<'a> {
    fn new(cfg: &'a Config) -> Self {
        Self {
            core: TouchRecognizer::new(panel()),
            cfg,
            holdback: None,
            last_tap: None,
            decisions: Vec::new(),
        }
    }

    fn feed(&mut self, input: &TouchInput) -> Vec<Decision> {
        let holdback_active = self.holdback.is_some();
        let reading = measure(&self.core, &self.cfg.gesture_thresholds, input);
        let decs = self.core.process(self.cfg, input, self.last_tap, holdback_active, &reading);
        for d in &decs {
            match d {
                Decision::Hold => self.holdback.get_or_insert_with(Vec::new).push(*input),
                Decision::Discard | Decision::Flush => self.holdback = None,
                Decision::Tap { set_last_tap, .. } => self.last_tap = *set_last_tap,
                _ => {}
            }
        }
        self.decisions.extend(decs.iter().map(copy));
        decs
    }

    fn run(&mut self, inputs: &[TouchInput]) {
        for i in inputs {
            self.feed(i);
        }
    }
}

fn run_all(cfg: &Config, inputs: &[TouchInput]) -> Vec<Decision> {
    let mut h = Harness::new(cfg);
    h.run(inputs);
    h.decisions
}

fn count<F: Fn(&Decision) -> bool>(decs: &[Decision], pred: F) -> usize {
    decs.iter().filter(|d| pred(d)).count()
}

fn is_pan(d: &Decision) -> bool {
    matches!(d, Decision::Pan(_))
}
fn is_zoom(d: &Decision) -> bool {
    matches!(d, Decision::Zoom { .. })
}
fn is_fire(d: &Decision) -> bool {
    matches!(d, Decision::FireThreshold(_))
}

/// The decisions that mean a system gesture claimed the sequence.
fn is_gesture_claim(d: &Decision) -> bool {
    matches!(
        d,
        Decision::CancelAppSequence
            | Decision::FireThreshold(_)
            | Decision::Pan(_)
            | Decision::Zoom { .. }
            | Decision::StartWindowGrab { .. }
            | Decision::PreExitFullscreen
            | Decision::Tap { .. }
            | Decision::Momentum
            | Decision::Discard
    )
}

#[test]
fn two_finger_drag_on_canvas_pans() {
    let cfg = cfg_default();
    let seq = vec![
        down(0, 500.0, 500.0, false, 0),
        down(1, 600.0, 500.0, false, 10),
        motion(0, 500.0, 560.0, 20),
        motion(1, 600.0, 560.0, 25),
        motion(0, 500.0, 620.0, 30),
        motion(1, 600.0, 620.0, 35),
        motion(0, 500.0, 680.0, 40),
        motion(1, 600.0, 680.0, 45),
        up(0, 60),
        up(1, 65),
    ];
    let decs = run_all(&cfg, &seq);
    assert!(count(&decs, is_pan) >= 1, "expected pans, got {decs:?}");
    assert_eq!(count(&decs, is_zoom), 0, "constant spread must not zoom");
    assert_eq!(count(&decs, is_fire), 0);
}

#[test]
fn two_finger_spread_on_canvas_zooms() {
    let cfg = cfg_default();
    let seq = vec![
        down(0, 500.0, 500.0, false, 0),
        down(1, 700.0, 500.0, false, 10),
        motion(0, 460.0, 500.0, 20),
        motion(1, 740.0, 500.0, 25),
        motion(0, 420.0, 500.0, 30),
        motion(1, 780.0, 500.0, 35),
        motion(0, 380.0, 500.0, 40),
        motion(1, 820.0, 500.0, 45),
        motion(0, 340.0, 500.0, 50),
        motion(1, 860.0, 500.0, 55),
    ];
    let decs = run_all(&cfg, &seq);
    assert!(count(&decs, is_zoom) >= 1, "expected zooms, got {decs:?}");
    assert_eq!(count(&decs, is_fire), 0);
}

#[test]
fn four_finger_swipe_fires_exactly_one_threshold() {
    // Default `swipe = 4` fingers is the one-shot navigate (`center-nearest`); the
    // 3-finger tier pans continuously. Fingers move left → inverted nav vector
    // points right → `CenterNearest(Right)`.
    let cfg = cfg_default();
    let mut seq = vec![
        down(0, 400.0, 500.0, false, 0),
        down(1, 500.0, 500.0, false, 5),
        down(2, 600.0, 500.0, false, 10),
        down(3, 700.0, 500.0, false, 15),
    ];
    let mut t = 20;
    for step in 1..=6 {
        let dx = -(step as f64) * 40.0;
        for f in 0..4 {
            seq.push(motion(f, 400.0 + f as f64 * 100.0 + dx, 500.0, t));
            t += 2;
        }
    }
    let decs = run_all(&cfg, &seq);
    assert_eq!(
        count(&decs, is_fire),
        1,
        "one-shot navigate must fire exactly once, got {decs:?}"
    );
    assert!(
        decs.iter().any(|d| matches!(
            d,
            Decision::FireThreshold(Action::CenterNearest(Direction::Right))
        )),
        "expected CenterNearest(Right), got {decs:?}"
    );
}

fn is_grab(d: &Decision) -> bool {
    matches!(d, Decision::StartWindowGrab { .. })
}

#[test]
fn three_finger_swipe_bound_to_move_starts_grab_not_pan() {
    let cfg =
        from_toml("[touch.anywhere]\n\"3-finger-swipe\" = \"move-window\"\n");
    let seq = vec![
        down(0, 500.0, 500.0, false, 0),
        down(1, 600.0, 500.0, false, 5),
        down(2, 700.0, 500.0, false, 10),
        motion(0, 500.0, 560.0, 20),
        motion(1, 600.0, 560.0, 25),
        motion(2, 700.0, 560.0, 30),
        motion(0, 500.0, 620.0, 40),
        motion(1, 600.0, 620.0, 45),
        motion(2, 700.0, 620.0, 50),
    ];
    let decs = run_all(&cfg, &seq);
    assert_eq!(
        count(&decs, |d| matches!(
            d,
            Decision::StartWindowGrab {
                action: ContinuousAction::MoveWindow
            }
        )),
        1,
        "a move-bound swipe must start exactly one non-cluster grab, got {decs:?}"
    );
    assert_eq!(
        count(&decs, is_pan),
        0,
        "a grab-bound swipe must not pan, got {decs:?}"
    );
}

#[test]
fn three_finger_swipe_pan_default_still_pans() {
    let cfg = cfg_default();
    let seq = vec![
        down(0, 500.0, 500.0, false, 0),
        down(1, 600.0, 500.0, false, 5),
        down(2, 700.0, 500.0, false, 10),
        motion(0, 500.0, 560.0, 20),
        motion(1, 600.0, 560.0, 25),
        motion(2, 700.0, 560.0, 30),
        motion(0, 500.0, 620.0, 40),
        motion(1, 600.0, 620.0, 45),
        motion(2, 700.0, 620.0, 50),
    ];
    let decs = run_all(&cfg, &seq);
    assert!(
        count(&decs, is_pan) >= 1,
        "default 3-finger swipe must pan, got {decs:?}"
    );
    assert_eq!(
        count(&decs, is_grab),
        0,
        "a pan swipe must not start a grab, got {decs:?}"
    );
}

#[test]
fn armed_doubletap_swipe_wins_over_swipe_grab() {
    // Unbind the default 3-finger pinch so a staggered drag can't engage zoom and
    // mask the grab under test.
    let cfg = from_toml(
        "[touch.anywhere]\n\
         \"3-finger-pinch\" = \"none\"\n\
         \"3-finger-tap\" = \"center-window\"\n\
         \"3-finger-doubletap-swipe\" = \"move-window\"\n\
         \"3-finger-swipe\" = \"resize-window\"\n",
    );
    let mut h = Harness::new(&cfg);
    // A clean 3-finger tap records the last-tap time, arming the next drag.
    h.run(&[
        down(0, 500.0, 500.0, false, 0),
        down(1, 550.0, 500.0, false, 10),
        down(2, 600.0, 500.0, false, 20),
        up(0, 40),
        up(1, 45),
        up(2, 50),
    ]);
    // Within the double-tap window a fresh 3-finger drag arms move: the
    // doubletap-swipe grab (move) wins over the swipe-slot grab (resize).
    h.run(&[
        down(0, 500.0, 500.0, false, 100),
        down(1, 550.0, 500.0, false, 110),
        down(2, 600.0, 500.0, false, 120),
        motion(0, 500.0, 560.0, 140),
        motion(1, 550.0, 560.0, 145),
        motion(2, 600.0, 560.0, 150),
    ]);
    assert!(
        h.decisions.iter().any(|d| matches!(
            d,
            Decision::StartWindowGrab {
                action: ContinuousAction::MoveWindow
            }
        )),
        "armed doubletap-swipe (move) must win over the swipe grab, got {:?}",
        h.decisions
    );
    assert_eq!(
        count(&h.decisions, |d| matches!(
            d,
            Decision::StartWindowGrab {
                action: ContinuousAction::ResizeWindow
            }
        )),
        0,
        "the swipe-slot resize grab must not fire while armed, got {:?}",
        h.decisions
    );
}

#[test]
fn held_hold_swipe_wins_over_swipe_grab() {
    // Unbind the default 3-finger pinch so a staggered drag can't engage zoom and
    // mask the grab under test.
    let cfg = from_toml(
        "[touch.anywhere]\n\
         \"3-finger-pinch\" = \"none\"\n\
         \"3-finger-hold-swipe\" = \"resize-window\"\n\
         \"3-finger-swipe\" = \"move-window\"\n",
    );
    // The fingers dwell past HOLD_MS (350ms) before the drag activates → the
    // hold-swipe grab (resize) wins over the swipe-slot grab (move).
    let seq = vec![
        down(0, 500.0, 500.0, false, 0),
        down(1, 550.0, 500.0, false, 10),
        down(2, 600.0, 500.0, false, 20),
        motion(0, 500.0, 560.0, 400),
        motion(1, 550.0, 560.0, 405),
        motion(2, 600.0, 560.0, 410),
    ];
    let decs = run_all(&cfg, &seq);
    assert!(
        decs.iter().any(|d| matches!(
            d,
            Decision::StartWindowGrab {
                action: ContinuousAction::ResizeWindow
            }
        )),
        "held hold-swipe (resize) must win over the swipe grab, got {decs:?}"
    );
    assert_eq!(
        count(&decs, |d| matches!(
            d,
            Decision::StartWindowGrab {
                action: ContinuousAction::MoveWindow
            }
        )),
        0,
        "the swipe-slot move grab must not fire while held, got {decs:?}"
    );
}

#[test]
fn armed_held_uses_doubletap_hold_swipe_for_cluster() {
    // A double-tap then hold-drag resolves to the doubletap-hold-swipe binding
    // (move-snapped-windows, a cluster move). Pinch unbound so a staggered drag
    // can't engage zoom and mask the grab.
    let cfg = from_toml(
        "[touch.anywhere]\n\
         \"3-finger-pinch\" = \"none\"\n\
         \"3-finger-tap\" = \"center-window\"\n\
         \"3-finger-doubletap-swipe\" = \"move-window\"\n\
         \"3-finger-doubletap-hold-swipe\" = \"move-snapped-windows\"\n",
    );
    let mut h = Harness::new(&cfg);
    // A clean 3-finger tap arms the next drag.
    h.run(&[
        down(0, 500.0, 500.0, false, 0),
        down(1, 550.0, 500.0, false, 10),
        down(2, 600.0, 500.0, false, 20),
        up(0, 40),
        up(1, 45),
        up(2, 50),
    ]);
    // Armed drag that dwells past HOLD_MS (350ms) before activating → armed AND
    // held → the doubletap-hold-swipe binding (cluster move).
    h.run(&[
        down(0, 500.0, 500.0, false, 100),
        down(1, 550.0, 500.0, false, 110),
        down(2, 600.0, 500.0, false, 120),
        motion(0, 500.0, 560.0, 480),
        motion(1, 550.0, 560.0, 485),
        motion(2, 600.0, 560.0, 490),
    ]);
    assert!(
        h.decisions.iter().any(|d| matches!(
            d,
            Decision::StartWindowGrab {
                action: ContinuousAction::MoveSnappedWindows
            }
        )),
        "armed+held must start a cluster move via doubletap-hold-swipe, got {:?}",
        h.decisions
    );
    assert_eq!(
        count(&h.decisions, |d| matches!(
            d,
            Decision::StartWindowGrab {
                action: ContinuousAction::MoveWindow
            }
        )),
        0,
        "the plain move (doubletap-swipe) must not fire when armed+held, got {:?}",
        h.decisions
    );
}

#[test]
fn armed_held_without_doubletap_hold_swipe_does_not_upgrade() {
    // With no doubletap-hold-swipe bound, armed+held resolves to the plain
    // doubletap-swipe (move-window); there's no implicit cluster upgrade.
    let cfg = from_toml(
        "[touch.anywhere]\n\
         \"3-finger-pinch\" = \"none\"\n\
         \"3-finger-tap\" = \"center-window\"\n\
         \"3-finger-doubletap-swipe\" = \"move-window\"\n",
    );
    let mut h = Harness::new(&cfg);
    h.run(&[
        down(0, 500.0, 500.0, false, 0),
        down(1, 550.0, 500.0, false, 10),
        down(2, 600.0, 500.0, false, 20),
        up(0, 40),
        up(1, 45),
        up(2, 50),
    ]);
    h.run(&[
        down(0, 500.0, 500.0, false, 100),
        down(1, 550.0, 500.0, false, 110),
        down(2, 600.0, 500.0, false, 120),
        motion(0, 500.0, 560.0, 480),
        motion(1, 550.0, 560.0, 485),
        motion(2, 600.0, 560.0, 490),
    ]);
    assert!(
        h.decisions.iter().any(|d| matches!(
            d,
            Decision::StartWindowGrab {
                action: ContinuousAction::MoveWindow
            }
        )),
        "armed+held with no doubletap-hold-swipe must stay plain move, got {:?}",
        h.decisions
    );
    assert_eq!(
        count(&h.decisions, |d| matches!(
            d,
            Decision::StartWindowGrab {
                action: ContinuousAction::MoveSnappedWindows
            }
        )),
        0,
        "no cluster upgrade without a doubletap-hold-swipe binding, got {:?}",
        h.decisions
    );
}

#[test]
fn armed_held_prefers_doubletap_swipe_over_hold_swipe() {
    // Both doubletap-swipe and hold-swipe bound, no doubletap-hold-swipe: armed +
    // held resolves to doubletap-swipe (arm 2), never hold-swipe (arm 3). Pins the
    // arm ordering — swapping arms 2 and 3 would flip this to resize.
    let cfg = from_toml(
        "[touch.anywhere]\n\
         \"3-finger-pinch\" = \"none\"\n\
         \"3-finger-tap\" = \"center-window\"\n\
         \"3-finger-doubletap-swipe\" = \"move-window\"\n\
         \"3-finger-hold-swipe\" = \"resize-window\"\n",
    );
    let mut h = Harness::new(&cfg);
    h.run(&[
        down(0, 500.0, 500.0, false, 0),
        down(1, 550.0, 500.0, false, 10),
        down(2, 600.0, 500.0, false, 20),
        up(0, 40),
        up(1, 45),
        up(2, 50),
    ]);
    h.run(&[
        down(0, 500.0, 500.0, false, 100),
        down(1, 550.0, 500.0, false, 110),
        down(2, 600.0, 500.0, false, 120),
        motion(0, 500.0, 560.0, 480),
        motion(1, 550.0, 560.0, 485),
        motion(2, 600.0, 560.0, 490),
    ]);
    assert!(
        h.decisions.iter().any(|d| matches!(
            d,
            Decision::StartWindowGrab {
                action: ContinuousAction::MoveWindow
            }
        )),
        "armed+held must prefer doubletap-swipe (move), got {:?}",
        h.decisions
    );
    assert_eq!(
        count(&h.decisions, |d| matches!(
            d,
            Decision::StartWindowGrab {
                action: ContinuousAction::ResizeWindow
            }
        )),
        0,
        "hold-swipe (resize) must not win over doubletap-swipe, got {:?}",
        h.decisions
    );
}

#[test]
fn armed_without_doubletap_swipe_falls_through_to_swipe_grab() {
    // Symmetric fallthrough: armed but no doubletap-swipe bound, and the base
    // swipe is a grab → the swipe grab fires (not a dead drag). A quick (not held)
    // tap-then-drag exercises the armed-but-doubletap-swipe-unbound arm.
    let cfg = from_toml(
        "[touch.anywhere]\n\
         \"3-finger-pinch\" = \"none\"\n\
         \"3-finger-tap\" = \"center-window\"\n\
         \"3-finger-swipe\" = \"move-window\"\n",
    );
    let mut h = Harness::new(&cfg);
    h.run(&[
        down(0, 500.0, 500.0, false, 0),
        down(1, 550.0, 500.0, false, 10),
        down(2, 600.0, 500.0, false, 20),
        up(0, 40),
        up(1, 45),
        up(2, 50),
    ]);
    h.run(&[
        down(0, 500.0, 500.0, false, 100),
        down(1, 550.0, 500.0, false, 110),
        down(2, 600.0, 500.0, false, 120),
        motion(0, 500.0, 560.0, 140),
        motion(1, 550.0, 560.0, 145),
        motion(2, 600.0, 560.0, 150),
    ]);
    assert!(
        h.decisions.iter().any(|d| matches!(
            d,
            Decision::StartWindowGrab {
                action: ContinuousAction::MoveWindow
            }
        )),
        "armed with no doubletap-swipe must fall through to the swipe grab, got {:?}",
        h.decisions
    );
}

#[test]
fn three_finger_tap_within_window_taps() {
    let cfg = cfg_default();
    let seq = vec![
        down(0, 500.0, 500.0, false, 0),
        down(1, 550.0, 500.0, false, 10),
        down(2, 600.0, 500.0, false, 20),
        up(0, 40),
        up(1, 50),
        up(2, 60),
    ];
    let decs = run_all(&cfg, &seq);
    // Default 3-finger tap is `center-window` → the deferred-center outcome.
    assert!(
        decs.iter().any(|d| matches!(
            d,
            Decision::Tap {
                outcome: TapOutcome::DeferCenter { .. },
                set_last_tap: Some(_),
                ..
            }
        )),
        "expected a deferred-center tap, got {decs:?}"
    );
    assert_eq!(count(&decs, is_pan), 0);
}

#[test]
fn slow_tap_past_tap_window_does_not_tap() {
    let cfg = cfg_default();
    // Same clean 3-finger tap but the lift lands well past TAP_MAX_MS (250ms).
    let seq = vec![
        down(0, 500.0, 500.0, false, 0),
        down(1, 550.0, 500.0, false, 10),
        down(2, 600.0, 500.0, false, 20),
        up(0, 400),
        up(1, 410),
        up(2, 420),
    ];
    let decs = run_all(&cfg, &seq);
    assert!(
        !decs.iter().any(|d| matches!(d, Decision::Tap { .. })),
        "a tap past the window must not fire, got {decs:?}"
    );
}

#[test]
fn holdback_then_claim_discards_and_cancels() {
    let cfg = cfg_default();
    let mut h = Harness::new(&cfg);
    // 1 finger on a surface: unbound tier, but a 3-finger tier binds → withhold.
    let d0 = h.feed(&down(0, 500.0, 500.0, true, 0));
    assert_eq!(d0, vec![Decision::Hold]);
    let d1 = h.feed(&down(1, 550.0, 500.0, true, 10));
    assert_eq!(d1, vec![Decision::Hold]);
    // Third finger reaches a bound tier → claim: drop the buffer, revoke the app.
    let d2 = h.feed(&down(2, 600.0, 500.0, true, 20));
    assert_eq!(d2.first(), Some(&Decision::Discard), "claim discards first");
    assert!(
        d2.contains(&Decision::CancelAppSequence),
        "app sequence must be cancelled, got {d2:?}"
    );
    assert!(d2.contains(&Decision::Consume));
}

#[test]
fn holdback_flushes_on_lift() {
    let cfg = cfg_default();
    let mut h = Harness::new(&cfg);
    h.feed(&down(0, 500.0, 500.0, true, 0)); // Hold
    // The finger lifts before any higher tier claims → flush to the app.
    let d = h.feed(&up(0, 20));
    assert!(d.contains(&Decision::Hold), "lift is buffered, got {d:?}");
    assert!(d.contains(&Decision::Flush), "lift flushes, got {d:?}");
    assert!(d.contains(&Decision::UnsetGrab));
}

#[test]
fn deadline_models_a_flush() {
    let core = TouchRecognizer::new(panel());
    assert_eq!(core.deadline_elapsed(), vec![Decision::Flush]);
}

/// A small deterministic source of numbers.
struct Numbers(u64);

impl Numbers {
    fn next(&mut self) -> u64 {
        self.0 = self.0.wrapping_mul(6364136223846793005).wrapping_add(1442695040888963407);
        self.0 >> 33
    }

    fn below(&mut self, n: u64) -> u64 {
        self.next() % n
    }

    fn between(&mut self, low: f64, high: f64) -> f64 {
        low + (high - low) * (self.below(1_000_000) as f64 / 1_000_000.0)
    }
}

/// A slot-valid input sequence with monotone times.
fn any_sequence(r: &mut Numbers) -> Vec<TouchInput> {
    let mut active = std::collections::HashSet::new();
    let mut time = 0u32;
    let mut out = Vec::new();
    for _ in 0..r.below(60) {
        let (kind, s) = (r.below(3), r.below(5) as u32);
        let (x, y) = (r.between(0.0, 2000.0), r.between(0.0, 2000.0));
        let app = r.below(2) == 0;
        time = time.saturating_add(r.below(300) as u32);
        match kind {
            0 => {
                if active.insert(s) {
                    out.push(down(s, x, y, app, time));
                }
            }
            1 => {
                if active.contains(&s) {
                    out.push(motion(s, x, y, time));
                }
            }
            _ => {
                if active.remove(&s) {
                    out.push(up(s, time));
                }
            }
        }
    }
    out
}

/// Plant some fingers before any motion, move them, lift them.
fn any_single_episode(r: &mut Numbers) -> Vec<TouchInput> {
    let n = 1 + r.below(5) as u32;
    let app = r.below(2) == 0;
    let mut out = Vec::new();
    let mut t = 0u32;
    for i in 0..n {
        t += 5;
        out.push(down(i, 100.0 + i as f64 * 60.0, 100.0, app, t));
    }
    for _ in 0..r.below(40) {
        let s = r.below(5) as u32 % n;
        t += 1 + r.below(119) as u32;
        out.push(motion(s, r.between(0.0, 2000.0), r.between(0.0, 2000.0), t));
    }
    for i in 0..n {
        t += 5;
        out.push(up(i, t));
    }
    out
}

/// Plant some fingers on one point and jitter each within a pixel.
fn any_dead_zone(r: &mut Numbers) -> Vec<TouchInput> {
    let n = 1 + r.below(5) as u32;
    let app = r.below(2) == 0;
    let (bx, by) = (r.between(200.0, 1800.0), r.between(200.0, 1800.0));
    let mut out = Vec::new();
    let mut t = 0u32;
    for i in 0..n {
        t += 5;
        out.push(down(i, bx, by, app, t));
    }
    for _ in 0..r.below(8) {
        let s = r.below(5) as u32 % n;
        t += 1 + r.below(119) as u32;
        out.push(motion(s, bx + r.between(-1.0, 1.0), by + r.between(-1.0, 1.0), t));
    }
    for i in 0..n {
        t += 5;
        out.push(up(i, t));
    }
    out
}

/// The arbitrated navigate engine fires at most one threshold per episode.
#[test]
fn prop_one_shot_exclusivity() {
    let cfg = cfg_default();
    let mut r = Numbers(1);
    for _ in 0..300 {
        let decs = run_all(&cfg, &any_single_episode(&mut r));
        assert!(count(&decs, is_fire) <= 1, "fired more than once: {decs:?}");
    }
}

/// Once a finger lifts while the plan is empty, no later event claims.
#[test]
fn prop_claims_blocked_absorbs() {
    let cfg = cfg_default();
    let mut r = Numbers(2);
    for _ in 0..300 {
        let mut h = Harness::new(&cfg);
        h.feed(&down(7, 500.0, 500.0, true, 0));
        h.feed(&down(8, 520.0, 500.0, true, 5));
        h.feed(&up(8, 10));
        let boundary = h.decisions.len();
        let shifted: Vec<TouchInput> = any_sequence(&mut r)
            .into_iter()
            .map(|mut i| {
                i.time_ms = i.time_ms.saturating_add(20);
                i
            })
            .collect();
        h.run(&shifted);
        let after = &h.decisions[boundary..];
        assert!(
            !after.iter().any(is_gesture_claim),
            "gesture claim after claims_blocked: {after:?}"
        );
    }
}

/// A flush only ever delivers a buffer that has held events since it was last
/// cleared.
#[test]
fn prop_claimed_never_flushed() {
    let cfg = cfg_default();
    let mut r = Numbers(3);
    for _ in 0..300 {
        let mut h = Harness::new(&cfg);
        let mut pending = 0i32;
        for input in &any_sequence(&mut r) {
            for d in h.feed(input) {
                match d {
                    Decision::Hold => pending += 1,
                    Decision::Discard => pending = 0,
                    Decision::Flush => {
                        assert!(pending > 0, "flushed a claimed/empty buffer");
                        pending = 0;
                    }
                    _ => {}
                }
            }
        }
    }
}

/// Below the gates: no viewport change and no navigate fire.
#[test]
fn prop_dead_zone_is_inert() {
    let cfg = cfg_default();
    let mut r = Numbers(4);
    for _ in 0..300 {
        let decs = run_all(&cfg, &any_dead_zone(&mut r));
        assert_eq!(count(&decs, is_pan), 0, "pan inside dead zone: {decs:?}");
        assert_eq!(count(&decs, is_zoom), 0, "zoom inside dead zone: {decs:?}");
        assert_eq!(count(&decs, is_fire), 0, "fire inside dead zone: {decs:?}");
    }
}

/// With every tier unbound, nothing is ever claimed.
#[test]
fn prop_empty_plans_only_forward() {
    let cfg = cfg_empty();
    let mut r = Numbers(5);
    for _ in 0..300 {
        let decs = run_all(&cfg, &any_sequence(&mut r));
        assert!(
            !decs.iter().any(is_gesture_claim),
            "empty config produced a claim: {decs:?}"
        );
    }
}

/// Identical inputs make identical decisions.
#[test]
fn prop_deterministic() {
    let cfg = cfg_default();
    let mut r = Numbers(6);
    for _ in 0..100 {
        let inputs = any_sequence(&mut r);
        assert_eq!(run_all(&cfg, &inputs), run_all(&cfg, &inputs));
    }
}

#[test]
fn momentum_follows_a_pan_without_zoom() {
    let cfg = cfg_default();
    let seq = vec![
        down(0, 500.0, 500.0, false, 0),
        down(1, 600.0, 500.0, false, 10),
        motion(0, 500.0, 560.0, 20),
        motion(1, 600.0, 560.0, 25),
        motion(0, 500.0, 620.0, 30),
        up(0, 60),
        up(1, 65),
    ];
    let decs = run_all(&cfg, &seq);
    assert_eq!(count(&decs, |d| matches!(d, Decision::Momentum)), 1);
    assert_eq!(decs.last(), Some(&Decision::UnsetGrab));
}

#[test]
fn pan_carries_the_centroid_delta() {
    let cfg = cfg_default();
    let decs = run_all(
        &cfg,
        &[
            down(0, 500.0, 500.0, false, 0),
            down(1, 600.0, 500.0, false, 10),
            motion(0, 500.0, 560.0, 20),
            motion(1, 600.0, 560.0, 25),
        ],
    );
    assert!(decs.contains(&Decision::Pan(pt(0.0, 30.0))), "{decs:?}");
}

#[test]
fn double_tap_fits_at_once() {
    let cfg = cfg_default();
    let mut h = Harness::new(&cfg);
    let tap = |t: u32| {
        vec![
            down(0, 500.0, 500.0, true, t),
            down(1, 550.0, 500.0, true, t + 5),
            down(2, 600.0, 500.0, true, t + 10),
            up(0, t + 20),
            up(1, t + 25),
            up(2, t + 30),
        ]
    };
    h.run(&tap(0));
    assert_eq!(h.last_tap, Some(30));
    h.core = TouchRecognizer::new(panel());
    h.run(&tap(100));
    assert_eq!(h.last_tap, None);
    assert!(h.decisions.iter().any(|d| matches!(
        d,
        Decision::Tap { outcome: TapOutcome::Fire(_), set_last_tap: None, .. }
    )));
}

#[test]
fn positions_come_in_slot_order() {
    let cfg = cfg_default();
    let mut h = Harness::new(&cfg);
    h.feed(&down(4, 1.0, 2.0, false, 0));
    h.feed(&down(1, 3.0, 4.0, false, 1));
    h.feed(&down(2, 5.0, 6.0, false, 2));
    h.feed(&motion(1, 7.0, 8.0, 3));
    assert_eq!(h.core.finger_count(), 3);
    assert_eq!(
        h.core.sorted_positions(),
        vec![pt(7.0, 8.0), pt(5.0, 6.0), pt(1.0, 2.0)]
    );
    assert_eq!(h.core.screen_pos(2), Some(pt(5.0, 6.0)));
    h.feed(&up(2, 4));
    assert_eq!(h.core.screen_pos(2), None);
}

/// A tap before the drag keeps a dwell from starting the hold grab; without
/// tap bindings the plain swipe decides.
#[test]
fn a_tap_rules_the_hold_grab_out() {
    let mut plan = Plan::empty();
    plan.hold_swipe = Some(ContinuousAction::MoveWindow);
    assert_eq!(choose_grab(&plan, false, true), Some(ContinuousAction::MoveWindow));
    assert_eq!(choose_grab(&plan, true, true), None);
    plan.swipe = Some(GestureConfigEntry::Continuous(ContinuousAction::ResizeWindow));
    assert_eq!(choose_grab(&plan, true, true), Some(ContinuousAction::ResizeWindow));
    plan.doubletap_swipe = Some(ContinuousAction::MoveWindow);
    assert_eq!(choose_grab(&plan, true, true), Some(ContinuousAction::MoveWindow));
}
