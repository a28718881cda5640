//! The canvas: coordinates, bounding boxes, neighbors and momentum.
use driftwm::canvas::{
    all_windows_bbox, clamp_to_output, clamp_zoom, find_nearest, internal_to_rule,
    is_origin_visible, rule_to_internal, rule_to_screen_top_left, snap_zoom, zoom_limit_box,
    Candidate, MomentumState, MomentumTick, VelocityTracker,
};
use driftwm::config::{Direction, Real};
use driftwm::geometry::{Point, Rect, Size};
use driftwm::grabs::touch_fingers::ScreenPos;

fn num_of(v: f64) -> Real {
    Real { bits: v.to_bits() }
}

fn num(r: Real) -> f64 {
    f64::from_bits(r.bits)
}

fn vp(w: i32, h: i32) -> Size {
    Size { w, h }
}

fn pt(x: f64, y: f64) -> (f64, f64) {
    (x, y)
}

fn at(x: f64, y: f64) -> ScreenPos {
    ScreenPos { x: num_of(x), y: num_of(y) }
}

#[test]
fn rule_coords_round_trip() {
    // internal -> rule -> internal is identity, even for odd sizes where
    // integer halving truncates (same truncated half is used both ways).
    for (loc, size) in [
        ((0, 0), (100, 100)),
        ((200, -300), (640, 480)),
        ((-15, 7), (101, 51)),
    ] {
        let loc = Point { x: loc.0, y: loc.1 };
        let size = vp(size.0, size.1);
        let (rx, ry) = internal_to_rule(loc, size);
        assert_eq!(rule_to_internal(rx, ry, size), loc);
    }
}

#[test]
fn rule_coords_center_y_up() {
    assert_eq!(internal_to_rule(Point { x: 0, y: 0 }, vp(100, 100)), (50, -50));
}

fn unit(d: &Direction) -> (f64, f64) {
    let s = std::f64::consts::FRAC_1_SQRT_2;
    match d {
        Direction::Up => (0.0, -1.0),
        Direction::Down => (0.0, 1.0),
        Direction::Left => (-1.0, 0.0),
        Direction::Right => (1.0, 0.0),
        Direction::UpLeft => (-s, -s),
        Direction::UpRight => (s, -s),
        Direction::DownLeft => (-s, s),
        Direction::DownRight => (s, s),
    }
}

fn nearest<'a>(
    origin: (f64, f64),
    dir: &Direction,
    items: &[(&'a str, (f64, f64))],
    skip: Option<&str>,
) -> Option<&'a str> {
    let (ux, uy) = unit(dir);
    let candidates = items
        .iter()
        .enumerate()
        .map(|(i, (_, c))| {
            let (dx, dy) = (c.0 - origin.0, c.1 - origin.1);
            let dot = dx * ux + dy * uy;
            Candidate {
                id: i as u64,
                dot: num_of(dot),
                cross: num_of((dx * uy - dy * ux).abs()),
                score: num_of((dx * dx + dy * dy) / dot),
            }
        })
        .collect();
    let skip = skip.and_then(|s| items.iter().position(|(n, _)| *n == s)).map(|i| i as u64);
    find_nearest(&candidates, skip).map(|i| items[i as usize].0)
}

#[test]
fn find_nearest_right() {
    let items = vec![
        ("a", pt(100.0, 0.0)),  // directly right
        ("b", pt(-100.0, 0.0)), // directly left
        ("c", pt(200.0, 0.0)),  // further right
    ];
    let result = nearest(pt(0.0, 0.0), &Direction::Right, &items, None);
    assert_eq!(result, Some("a"));
}

#[test]
fn find_nearest_up() {
    let items = vec![("above", pt(0.0, -100.0)), ("below", pt(0.0, 100.0))];
    assert_eq!(nearest(pt(0.0, 0.0), &Direction::Up, &items, None), Some("above"));
}

#[test]
fn find_nearest_down() {
    let items = vec![("above", pt(0.0, -100.0)), ("below", pt(0.0, 100.0))];
    assert_eq!(nearest(pt(0.0, 0.0), &Direction::Down, &items, None), Some("below"));
}

#[test]
fn find_nearest_left() {
    let items = vec![("left", pt(-100.0, 0.0)), ("right", pt(100.0, 0.0))];
    assert_eq!(nearest(pt(0.0, 0.0), &Direction::Left, &items, None), Some("left"));
}

#[test]
fn find_nearest_outside_cone() {
    // Item at 60° from the right axis: outside the 45° cone
    let items = vec![("diagonal", pt(50.0, 100.0))];
    assert_eq!(nearest(pt(0.0, 0.0), &Direction::Right, &items, None), None);
}

#[test]
fn find_nearest_skips_self() {
    let items = vec![("self", pt(10.0, 0.0)), ("other", pt(20.0, 0.0))];
    assert_eq!(nearest(pt(0.0, 0.0), &Direction::Right, &items, Some("self")), Some("other"));
}

#[test]
fn find_nearest_empty() {
    let items: Vec<(&str, (f64, f64))> = vec![];
    assert_eq!(nearest(pt(0.0, 0.0), &Direction::Right, &items, None), None);
}

#[test]
fn aligned_windows_win_over_closer_ones() {
    let items = vec![("askew", pt(80.0, 79.0)), ("ahead", pt(150.0, 0.0))];
    assert_eq!(nearest(pt(0.0, 0.0), &Direction::Right, &items, None), Some("ahead"));
    let tied = vec![("first", pt(50.0, 0.0)), ("second", pt(50.0, 0.0))];
    assert_eq!(nearest(pt(0.0, 0.0), &Direction::Right, &tied, None), Some("first"));
}

#[test]
fn rules_place_windows_on_an_output() {
    let corner = rule_to_screen_top_left(0, 0, vp(200, 100), vp(1920, 1080));
    assert_eq!(corner, Point { x: 860, y: 490 });
    let off = rule_to_screen_top_left(1000, 1000, vp(200, 100), vp(1920, 1080));
    assert_eq!(off, Point { x: 1860, y: -510 });
    assert_eq!(clamp_to_output(off, vp(200, 100), vp(1920, 1080)), Point { x: 1720, y: 0 });
    assert_eq!(clamp_to_output(off, vp(3000, 100), vp(1920, 1080)), Point { x: 0, y: 0 });
}

#[test]
fn the_bbox_spans_all_windows() {
    assert_eq!(all_windows_bbox(&vec![]), None);
    let w = vec![
        (Point { x: 10, y: 20 }, vp(100, 50)),
        (Point { x: -30, y: 40 }, vp(20, 200)),
        (Point { x: 0, y: -5 }, vp(10, 10)),
    ];
    let r = Rect { loc: Point { x: -30, y: -5 }, size: vp(140, 245) };
    assert_eq!(all_windows_bbox(&w), Some(r));
    assert_eq!(zoom_limit_box(&w), r);
    assert_eq!(
        zoom_limit_box(&vec![]),
        Rect { loc: Point { x: -2, y: -2 }, size: vp(5, 5) }
    );
}

#[test]
fn velocity_is_taken_from_the_last_moments() {
    let mut t = VelocityTracker::new();
    t.push(0, at(1.0, 0.0));
    assert_eq!(t.launch_window(), None);
    t.push(50, at(2.0, 0.0));
    assert_eq!(t.launch_window(), Some(50));
    t.push(100, at(3.0, 0.0));
    assert_eq!(t.samples.len(), 2);
    assert_eq!(t.launch_window(), Some(50));
    t.push(100, at(4.0, 0.0));
    t.push(180, at(5.0, 0.0));
    assert_eq!(t.launch_window(), Some(80));
    t.clear();
    assert!(t.samples.is_empty());
    t.push(7, at(0.0, 0.0));
    t.push(7, at(0.0, 0.0));
    assert_eq!(t.launch_window(), None);
}

#[test]
fn velocity_survives_the_clock_wrap() {
    let mut t = VelocityTracker::new();
    t.push(u32::MAX - 9, at(1.0, 0.0));
    t.push(20, at(1.0, 0.0));
    assert_eq!(t.launch_window(), Some(30));
    t.push(80, at(1.0, 0.0));
    assert_eq!(t.samples.len(), 2);
}

#[test]
fn momentum_coasts_and_stops() {
    let mut m = MomentumState::new(num_of(0.5));
    assert_eq!(m.tick(&num_of(100.0), at(9.0, 9.0)), MomentumTick::Rest);
    m.accumulate(at(1.0, 0.0), 0);
    m.accumulate(at(1.0, 0.0), 10);
    m.launch(at(200.0, 0.0));
    assert!(m.coasting && m.tracker.samples.is_empty());
    assert_eq!(m.velocity, at(200.0, 0.0));
    assert_eq!(m.tick(&num_of(200.0), at(150.0, 0.0)), MomentumTick::Coast);
    assert_eq!(m.velocity, at(150.0, 0.0));
    assert_eq!(m.tick(&num_of(14.9), at(1.0, 0.0)), MomentumTick::Stop);
    assert_eq!(m.velocity, at(0.0, 0.0));
    m.launch(at(5.0, 5.0));
    assert_eq!(m.velocity, at(0.0, 0.0));
    m.accumulate(at(1.0, 0.0), 20);
    assert!(!m.coasting);
    m.stop();
    assert!(m.tracker.samples.is_empty());
    assert_eq!(m.drift, num_of(0.5));
}

#[test]
fn zoom_snaps_and_clamps() {
    let snap = |z: f64| num(snap_zoom(num_of(z), &num_of((z - 1.0).abs())));
    assert_eq!(snap(0.96), 1.0);
    assert_eq!(snap(0.9), 0.9);
    assert_eq!(num(clamp_zoom(num_of(3.0))), 1.0);
    assert_eq!(num(clamp_zoom(num_of(0.0))), 0.001);
    assert_eq!(num(clamp_zoom(num_of(0.5))), 0.5);
    assert!(is_origin_visible(&at(-10.0, -10.0), &at(10.0, 10.0)));
    assert!(is_origin_visible(&at(0.0, -10.0), &at(10.0, 0.0)));
    assert!(!is_origin_visible(&at(1.0, -10.0), &at(10.0, 10.0)));
    assert!(!is_origin_visible(&at(-10.0, -10.0), &at(10.0, -1.0)));
}
